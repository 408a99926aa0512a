//! The command line, and what the program does with it.

use crate::text::same_text;
use vstd::prelude::*;

verus! {

/// How the program runs.
#[derive(Debug, Clone, Copy, PartialEq, Eq, Structural)]
pub enum Mode {
    /// One capture, then exit.
    Capture,
    /// Stay in the background and capture on demand.
    Daemon,
    /// Tell a running daemon to capture.
    Trigger,
}

/// What the command line asks for.
#[derive(Debug, Clone, Copy, PartialEq, Eq, Structural)]
pub enum Invocation {
    Help,
    Run(Mode),
}

/// The texts of a list of strings.
pub open spec fn texts(args: Seq<String>) -> Seq<Seq<char>> {
    Seq::new(args.len(), |i: int| args[i]@)
}

pub open spec fn asks_help(a: Seq<char>) -> bool {
    a == "-h"@ || a == "--help"@
}

/// The mode that an argument names, if it names one.
pub open spec fn named_mode(a: Seq<char>) -> Option<Mode> {
    if a == "--trigger"@ {
        Some(Mode::Trigger)
    } else if a == "--daemon"@ {
        Some(Mode::Daemon)
    } else if a == "--capture"@ {
        Some(Mode::Capture)
    } else {
        None
    }
}

/// The last mode that is named, or a single capture where none is. Arguments
/// that are not known are passed over.
pub open spec fn last_mode(args: Seq<Seq<char>>) -> Mode
    decreases args.len(),
{
    if args.len() == 0 {
        Mode::Capture
    } else {
        match named_mode(args.last()) {
            Some(mode) => mode,
            None => last_mode(args.drop_last()),
        }
    }
}

fn mode_named(a: &String) -> (r: Option<Mode>)
    ensures
        r == named_mode(a@),
{
    if same_text(a, "--trigger") {
        Some(Mode::Trigger)
    } else if same_text(a, "--daemon") {
        Some(Mode::Daemon)
    } else if same_text(a, "--capture") {
        Some(Mode::Capture)
    } else {
        None
    }
}

/// Reads the arguments, without the program's name. A request for help wins over
/// everything else.
pub fn parse_mode(args: &[String]) -> (r: Invocation)
    ensures
        (exists|i: int| 0 <= i < args@.len() && asks_help(#[trigger] args@[i]@)) ==> r
            == Invocation::Help,
        (forall|i: int| 0 <= i < args@.len() ==> !asks_help(#[trigger] args@[i]@)) ==> r
            == Invocation::Run(last_mode(texts(args@))),
{
    let mut mode: Mode = Mode::Capture;
    let mut i: usize = 0;
    while i < args.len()
        invariant
            i <= args@.len(),
            forall|j: int| 0 <= j < i ==> !asks_help(#[trigger] args@[j]@),
            mode == last_mode(texts(args@.take(i as int))),
        decreases args@.len() - i,
    {
        let a: &String = &args[i];
        if same_text(a, "-h") || same_text(a, "--help") {
            assert(asks_help(args@[i as int]@));
            return Invocation::Help;
        }
        proof {
            let next = texts(args@.take(i + 1));
            assert(next.drop_last() =~= texts(args@.take(i as int)));
            assert(next.last() == args@[i as int]@);
        }
        if let Some(named) = mode_named(a) {
            mode = named;
        }
        i = i + 1;
    }
    assert(args@.take(i as int) =~= args@);
    Invocation::Run(mode)
}

/// What the program turns to once the mode is known.
#[derive(Debug, Clone, Copy, PartialEq, Eq, Structural)]
pub enum Startup {
    /// A daemon was told to capture: nothing is left to do.
    Exit,
    Daemon,
    SingleShot,
}

/// Chooses what to do. `delivered` tells whether a running daemon was reached;
/// without one, a trigger captures by itself.
pub fn startup(mode: Mode, delivered: bool) -> (r: Startup)
    ensures
        r is Exit <==> mode is Trigger && delivered,
        r is Daemon <==> mode is Daemon,
        r is SingleShot <==> mode is Capture || mode is Trigger && !delivered,
{
    match mode {
        Mode::Capture => Startup::SingleShot,
        Mode::Daemon => Startup::Daemon,
        Mode::Trigger => if delivered {
            Startup::Exit
        } else {
            Startup::SingleShot
        },
    }
}

/// How a capture ended.
#[derive(Debug, Clone, Copy, PartialEq, Eq, Structural)]
pub enum FlowResult {
    /// With an image to pin.
    Image,
    /// Given up, saved or copied.
    Nothing,
    Failed,
}

/// What follows a capture.
#[derive(Debug, Clone, Copy, PartialEq, Eq, Structural)]
pub struct FollowUp {
    pub pin: bool,
    pub report_error: bool,
    pub quit: bool,
}

/// Decides what follows a capture. With `quit_after` the program ends, unless
/// there is an image, whose window keeps it alive.
pub fn handle_capture_result(result: FlowResult, quit_after: bool) -> (r: FollowUp)
    ensures
        r.pin == (result is Image),
        r.report_error == (result is Failed),
        r.quit == (quit_after && !(result is Image)),
{
    match result {
        FlowResult::Image => FollowUp { pin: true, report_error: false, quit: false },
        FlowResult::Nothing => FollowUp { pin: false, report_error: false, quit: quit_after },
        FlowResult::Failed => FollowUp { pin: false, report_error: true, quit: quit_after },
    }
}

/// Of several modes the last one counts, and arguments that name none change
/// nothing.
pub proof fn law_last_mode_counts(args: Seq<Seq<char>>, a: Seq<char>)
    ensures
        named_mode(a) matches Some(mode) ==> last_mode(args.push(a)) == mode,
        named_mode(a) is None ==> last_mode(args.push(a)) == last_mode(args),
{
    assert(args.push(a).drop_last() =~= args);
}

/// An argument asks for help exactly if it is one of the two spellings, and names a
/// mode exactly if it is that mode's own word.
pub proof fn law_arguments(a: Seq<char>)
    ensures
        asks_help(a) <==> a == "-h"@ || a == "--help"@,
        named_mode(a) == Some(Mode::Trigger) <==> a == "--trigger"@,
        named_mode(a) == Some(Mode::Daemon) <==> a == "--daemon"@,
        named_mode(a) == Some(Mode::Capture) <==> a == "--capture"@,
{
    reveal_strlit("--trigger");
    reveal_strlit("--daemon");
    reveal_strlit("--capture");
    assert("--trigger"@[2] != "--daemon"@[2]);
    assert("--trigger"@[2] != "--capture"@[2]);
    assert("--daemon"@[2] != "--capture"@[2]);
}

/// Without arguments there is one capture.
pub proof fn law_no_arguments()
    ensures
        last_mode(seq![]) == Mode::Capture,
{
}

/// The texts are those of the arguments, one for each and in their order.
pub proof fn law_texts(args: Seq<String>, i: int)
    requires
        0 <= i < args.len(),
    ensures
        texts(args).len() == args.len(),
        texts(args)[i] == args[i]@,
{
}

} // verus!
