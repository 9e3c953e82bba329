//! Heap allocation with a single owner: a box for values whose size the
//! stack cannot hold, and one interface with several implementations
//! chosen at runtime and kept on the heap.

use vstd::prelude::*;
use vstd::string::*;

verus! {

/// A minimal heap-box lookalike: it owns one value and hands out a
/// reference to it.
struct MyBox<T>(T);

impl<T> MyBox<T> {
    /// Wraps `x`.
    fn new(x: T) -> (r: MyBox<T>)
        ensures
            r.0 == x,
    {
        MyBox(x)
    }

    /// A reference to the wrapped value, in place of dereferencing.
    fn get(&self) -> (r: &T)
        ensures
            *r == self.0,
    {
        &self.0
    }
}

/// A cons list whose tail is boxed, so that every node has a size known
/// when the program is built.
enum List {
    Cons(i32, Box<List>),
    Nil,
}

/// A boxed value reads back as the value that went in, whether the box
/// is the standard one or [`MyBox`].  Every assertion is checked
/// statically.
pub fn test_box() {
    let _list = List::Cons(
        1,
        Box::new(List::Cons(2, Box::new(List::Cons(1, Box::new(List::Nil))))),
    );

    let x: i32 = 5;
    let y = MyBox::new(x);
    let z = Box::new(x);

    assert(x == 5);
    let yv: i32 = *y.get();
    assert(yv == 5);
    let zv: i32 = *z;
    assert(zv == 5);
}

/// The report a controller gives for one button press.
pub open spec fn press_message(console: Seq<char>, command: Seq<char>) -> Seq<char> {
    "button '"@ + command + "' was pressed at the "@ + console
}

/// A controller of some console: pressing a button reports the press at
/// that console.
pub trait Controller {
    /// The console's name.
    spec fn spec_name(&self) -> Seq<char>;

    /// Handles one button press and reports it.
    fn press(&self, command: &str) -> (r: String)
        ensures
            r@ == press_message(self.spec_name(), command@),
    ;
}

/// The first console.
pub struct Ps5;

impl Controller for Ps5 {
    open spec fn spec_name(&self) -> Seq<char> {
        "Ps5"@
    }

    fn press(&self, command: &str) -> (r: String) {
        let m = String::from_str("button '");
        let m = m.concat(command);
        let m = m.concat("' was pressed at the ");
        let m = m.concat("Ps5");
        proof {
            assert(m@ =~= press_message(self.spec_name(), command@));
        }
        m
    }
}

/// The second console.
pub struct Xbox;

impl Controller for Xbox {
    open spec fn spec_name(&self) -> Seq<char> {
        "Xbox"@
    }

    fn press(&self, command: &str) -> (r: String) {
        let m = String::from_str("button '");
        let m = m.concat(command);
        let m = m.concat("' was pressed at the ");
        let m = m.concat("Xbox");
        proof {
            assert(m@ =~= press_message(self.spec_name(), command@));
        }
        m
    }
}

/// The selector a caller hands in to pick a console at runtime.
pub enum ConsoleType {
    Ps5,
    Xbox,
}

/// One controller of either console, kept behind the shared interface.
pub enum GameConsole {
    Ps5(Ps5),
    Xbox(Xbox),
}

impl Controller for GameConsole {
    open spec fn spec_name(&self) -> Seq<char> {
        match self {
            GameConsole::Ps5(c) => c.spec_name(),
            GameConsole::Xbox(c) => c.spec_name(),
        }
    }

    fn press(&self, command: &str) -> (r: String) {
        match self {
            GameConsole::Ps5(c) => c.press(command),
            GameConsole::Xbox(c) => c.press(command),
        }
    }
}

/// Builds the controller implementation that `option` names and places
/// it on the heap, to be used through the shared interface.
pub fn run(option: &ConsoleType) -> (r: Box<GameConsole>)
    ensures
        option is Ps5 ==> r.spec_name() == "Ps5"@,
        option is Xbox ==> r.spec_name() == "Xbox"@,
{
    match option {
        ConsoleType::Ps5 => Box::new(GameConsole::Ps5(Ps5)),
        ConsoleType::Xbox => Box::new(GameConsole::Xbox(Xbox)),
    }
}

/// Drives one controller of each console through the shared interface
/// and checks, statically, the exact report each one gives.
pub fn start_console() {
    let ps5 = run(&ConsoleType::Ps5);
    let xbox = run(&ConsoleType::Xbox);

    let m1 = ps5.press("UP");
    let m2 = xbox.press("DOW");

    proof {
        reveal_strlit("button '");
        reveal_strlit("' was pressed at the ");
        reveal_strlit("UP");
        reveal_strlit("DOW");
        reveal_strlit("Ps5");
        reveal_strlit("Xbox");
        reveal_strlit("button 'UP' was pressed at the Ps5");
        reveal_strlit("button 'DOW' was pressed at the Xbox");
    }
    assert(m1@ =~= "button 'UP' was pressed at the Ps5"@);
    assert(m2@ =~= "button 'DOW' was pressed at the Xbox"@);
}

} // verus!
