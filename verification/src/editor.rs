//! The command line of the BPMN editor's backend.

use vstd::prelude::*;
use vstd::string::StringSliceAdditionalSpecFns;
use crate::rng::{parse_u64, spec_parse_u64};
use crate::text::{chars_of, str_eq};

verus! {

/// The port the backend listens on unless told otherwise.
pub const DEFAULT_EDITOR_PORT: u16 = 15123;

/// `str::parse::<u16>`: an optional `+`, then at least one decimal digit,
/// with a value that fits in 16 bits.
pub open spec fn spec_parse_u16(s: Seq<char>) -> Option<u16> {
    match spec_parse_u64(s) {
        Some(v) => if v <= 0xFFFF {
            Some(v as u16)
        } else {
            None
        },
        None => None,
    }
}

/// The port that the arguments give, starting from `port`: each
/// `--port <n>` sets it; a `--port` without a value, a value that is not
/// a 16-bit number, or any other argument is refused.
pub open spec fn spec_editor_port(args: Seq<Seq<char>>, port: u16) -> Result<u16, Seq<char>>
    decreases args.len(),
{
    if args.len() == 0 {
        Ok(port)
    } else if args[0] == "--port"@ {
        if args.len() < 2 {
            Err("--port requires a value"@)
        } else {
            match spec_parse_u16(args[1]) {
                Some(p) => spec_editor_port(args.subrange(2, args.len() as int), p),
                None => Err("Invalid --port value: "@ + args[1]),
            }
        }
    } else {
        Err("Unknown arg: "@ + args[0])
    }
}

/// The port given by the backend's arguments (see [`spec_editor_port`]),
/// [`DEFAULT_EDITOR_PORT`] when none is given.
pub fn editor_port_from_args(args: &[String]) -> (r: Result<u16, String>)
    ensures
        match r {
            Ok(p) => spec_editor_port(args@.map_values(|a: String| a@), DEFAULT_EDITOR_PORT)
                == Ok::<u16, Seq<char>>(p),
            Err(e) => spec_editor_port(args@.map_values(|a: String| a@), DEFAULT_EDITOR_PORT)
                == Err::<u16, Seq<char>>(e@),
        },
{
    let ghost av = args@.map_values(|a: String| a@);
    let mut port: u16 = DEFAULT_EDITOR_PORT;
    let mut i: usize = 0;
    assert(av.subrange(0, av.len() as int) =~= av);
    while i < args.len()
        invariant
            i <= args@.len(),
            av == args@.map_values(|a: String| a@),
            spec_editor_port(av, DEFAULT_EDITOR_PORT) == spec_editor_port(
                av.subrange(i as int, av.len() as int),
                port,
            ),
        decreases args@.len() - i,
    {
        let ghost rest = av.subrange(i as int, av.len() as int);
        assert(rest[0] == args@[i as int]@);
        if !str_eq(args[i].as_str(), "--port") {
            let mut m = String::new();
            m.push_str("Unknown arg: ");
            m.push_str(args[i].as_str());
            return Err(m);
        }
        if i + 1 >= args.len() {
            let mut m = String::new();
            m.push_str("--port requires a value");
            return Err(m);
        }
        assert(rest[1] == args@[i + 1]@);
        let cs = chars_of(args[i + 1].as_str());
        let parsed = match parse_u64(cs.as_slice()) {
            Some(v) => if v <= 0xFFFF {
                Some(v as u16)
            } else {
                None
            },
            None => None,
        };
        match parsed {
            Some(p) => {
                assert(rest.subrange(2, rest.len() as int) =~= av.subrange(i + 2, av.len() as int));
                port = p;
            },
            None => {
                let mut m = String::new();
                m.push_str("Invalid --port value: ");
                m.push_str(args[i + 1].as_str());
                return Err(m);
            },
        }
        i += 2;
    }
    assert(av.subrange(av.len() as int, av.len() as int).len() == 0);
    Ok(port)
}

} // verus!
