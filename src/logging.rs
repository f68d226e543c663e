//! The servers' log line format and the level filter read from a setting.

use vstd::prelude::*;
use vstd::string::StringSliceAdditionalSpecFns;

verus! {

/// Severity of a log record.
#[derive(Debug, Clone, Copy, PartialEq, Eq, Structural)]
pub enum Level {
    Error,
    Warn,
    Info,
    Debug,
    Trace,
}

/// The most verbose level let through.
#[derive(Debug, Clone, Copy, PartialEq, Eq, Structural)]
pub enum LevelFilter {
    Off,
    Error,
    Warn,
    Info,
    Debug,
    Trace,
}

/// The terminal color of a level.
pub open spec fn color_of(level: Level) -> u8 {
    match level {
        Level::Error => 31,
        Level::Warn => 93,
        Level::Info => 34,
        Level::Debug => 32,
        Level::Trace => 90,
    }
}

/// The name a level is printed as.
pub open spec fn level_name(level: Level) -> Seq<u8> {
    match level {
        Level::Error => seq![69u8, 82, 82, 79, 82],
        Level::Warn => seq![87u8, 65, 82, 78],
        Level::Info => seq![73u8, 78, 70, 79],
        Level::Debug => seq![68u8, 69, 66, 85, 71],
        Level::Trace => seq![84u8, 82, 65, 67, 69],
    }
}

/// The ASCII digits of a two-digit number.
pub open spec fn two_digits(n: u8) -> Seq<u8> {
    seq![(48 + n / 10) as u8, (48 + n % 10) as u8]
}

/// ESC `[`.
pub open spec fn csi() -> Seq<u8> {
    seq![27u8, 91]
}

/// One log line: `ESC[<color>m[<LEVEL>] [<target>] <message>ESC[0m`.
pub open spec fn log_line(level: Level, target: Seq<u8>, message: Seq<u8>) -> Seq<u8> {
    csi() + two_digits(color_of(level)) + seq![109u8, 91] + level_name(level) + seq![93u8, 32, 91]
        + target + seq![93u8, 32] + message + csi() + seq![48u8, 109]
}

/// The target printed: the record's own, or its module path when it has
/// none.
pub open spec fn shown_target(target: Seq<u8>, module: Option<Seq<u8>>) -> Seq<u8> {
    if target.len() == 0 {
        match module {
            Some(p) => p,
            None => seq![],
        }
    } else {
        target
    }
}

fn push_all(out: &mut Vec<u8>, bytes: &[u8])
    ensures
        final(out)@ == old(out)@ + bytes@,
{
    let mut i: usize = 0;
    while i < bytes.len()
        invariant
            i <= bytes@.len(),
            out@ == old(out)@ + bytes@.subrange(0, i as int),
        decreases bytes@.len() - i,
    {
        out.push(bytes[i]);
        i = i + 1;
        assert(out@ =~= old(out)@ + bytes@.subrange(0, i as int));
    }
    assert(bytes@.subrange(0, i as int) =~= bytes@);
}

fn push_seq(out: &mut Vec<u8>, bytes: Vec<u8>)
    ensures
        final(out)@ == old(out)@ + bytes@,
{
    push_all(out, bytes.as_slice());
}

/// Formats a record as one colored log line, naming its target (or its
/// module path when the target is empty).
pub fn fmt_with_module(level: Level, target: &str, module: Option<&str>, message: &str) -> (r:
    Vec<u8>)
    ensures
        r@ == log_line(
            level,
            shown_target(
                target.spec_bytes(),
                match module {
                    Some(p) => Some(p.spec_bytes()),
                    None => None,
                },
            ),
            message.spec_bytes(),
        ),
{
    let color: u8 = match level {
        Level::Error => 31,
        Level::Warn => 93,
        Level::Info => 34,
        Level::Debug => 32,
        Level::Trace => 90,
    };
    let name: Vec<u8> = match level {
        Level::Error => vec![69u8, 82, 82, 79, 82],
        Level::Warn => vec![87u8, 65, 82, 78],
        Level::Info => vec![73u8, 78, 70, 79],
        Level::Debug => vec![68u8, 69, 66, 85, 71],
        Level::Trace => vec![84u8, 82, 65, 67, 69],
    };
    assert(color == color_of(level));
    assert(name@ =~= level_name(level));
    let digits = vec![48 + color / 10, 48 + color % 10];
    assert(digits@ =~= two_digits(color));
    let mut out: Vec<u8> = Vec::new();
    push_seq(&mut out, vec![27u8, 91]);
    push_seq(&mut out, digits);
    push_seq(&mut out, vec![109u8, 91]);
    push_seq(&mut out, name);
    push_seq(&mut out, vec![93u8, 32, 91]);
    let ghost before_target = out@;
    let ghost shown = shown_target(
        target.spec_bytes(),
        match module {
            Some(p) => Some(p.spec_bytes()),
            None => None,
        },
    );
    let ghost before_target = out@;
    let ghost shown = shown_target(
        target.spec_bytes(),
        match module {
            Some(p) => Some(p.spec_bytes()),
            None => None,
        },
    );
    if target.as_bytes().len() == 0 {
        match module {
            Some(p) => push_all(&mut out, p.as_bytes()),
            None => {
                assert(shown =~= Seq::<u8>::empty());
            },
        }
    } else {
        push_all(&mut out, target.as_bytes());
    }
    assert(out@ =~= before_target + shown);
    push_seq(&mut out, vec![93u8, 32]);
    push_all(&mut out, message.as_bytes());
    push_seq(&mut out, vec![27u8, 91]);
    push_seq(&mut out, vec![48u8, 109]);
    assert(out@ =~= log_line(
        level,
        shown_target(
            target.spec_bytes(),
            match module {
                Some(p) => Some(p.spec_bytes()),
                None => None,
            },
        ),
        message.spec_bytes(),
    ));
    out
}

/// The filter a level setting names: "error", "warn", "info", "debug" or
/// "trace"; anything else, or no setting, turns logging off.
pub open spec fn filter_of(setting: Option<Seq<u8>>) -> LevelFilter {
    match setting {
        Some(s) => if s == seq![101u8, 114, 114, 111, 114] {
            LevelFilter::Error
        } else if s == seq![119u8, 97, 114, 110] {
            LevelFilter::Warn
        } else if s == seq![105u8, 110, 102, 111] {
            LevelFilter::Info
        } else if s == seq![100u8, 101, 98, 117, 103] {
            LevelFilter::Debug
        } else if s == seq![116u8, 114, 97, 99, 101] {
            LevelFilter::Trace
        } else {
            LevelFilter::Off
        },
        None => LevelFilter::Off,
    }
}

fn bytes_eq(a: &[u8], b: &Vec<u8>) -> (r: bool)
    ensures
        r == (a@ == b@),
{
    if a.len() != b.len() {
        return false;
    }
    let mut i: usize = 0;
    while i < a.len()
        invariant
            i <= a@.len(),
            a@.len() == b@.len(),
            forall|j: int| 0 <= j < i ==> a@[j] == b@[j],
        decreases a@.len() - i,
    {
        if a[i] != b[i] {
            return false;
        }
        i = i + 1;
    }
    assert(a@ =~= b@);
    true
}

/// The level filter that a logging setting selects.
pub fn init(level: Option<&str>) -> (r: LevelFilter)
    ensures
        r == filter_of(
            match level {
                Some(s) => Some(s.spec_bytes()),
                None => None,
            },
        ),
{
    match level {
        Some(s) => {
            let b = s.as_bytes();
            if bytes_eq(b, &vec![101u8, 114, 114, 111, 114]) {
                LevelFilter::Error
            } else if bytes_eq(b, &vec![119u8, 97, 114, 110]) {
                LevelFilter::Warn
            } else if bytes_eq(b, &vec![105u8, 110, 102, 111]) {
                LevelFilter::Info
            } else if bytes_eq(b, &vec![100u8, 101, 98, 117, 103]) {
                LevelFilter::Debug
            } else if bytes_eq(b, &vec![116u8, 114, 97, 99, 101]) {
                LevelFilter::Trace
            } else {
                LevelFilter::Off
            }
        },
        None => LevelFilter::Off,
    }
}

} // verus!
