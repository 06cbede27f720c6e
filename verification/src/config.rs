//! Configuration values.
//!
//! The process reads its settings from the environment at boot; the reading
//! is the unverified edge's, but what the raw strings mean is decided here:
//! the decimal broadcast capacity and the log level, each parsed with an
//! exact meaning, plus the documented defaults.

use vstd::prelude::*;

verus! {

/// Default capacity of the state-update broadcast bus.
pub const DEFAULT_BROADCAST_CAPACITY: usize = 10;

/// Default seconds a requester waits before timing out.
pub const DEFAULT_WAIT_TIMEOUT_SECS: u64 = 30;

/// Default seconds of observer idleness between heart-beats.
pub const DEFAULT_OBSERVER_HEARTBEAT_SECS: u64 = 5;

/// `b` is an ASCII decimal digit.
pub open spec fn is_dec_digit(b: u8) -> bool {
    48 <= b && b <= 57
}

/// The number a decimal digit string denotes.
pub open spec fn dec_val(s: Seq<u8>) -> int
    decreases s.len(),
{
    if s.len() == 0 {
        0
    } else {
        dec_val(s.drop_last()) * 10 + (s.last() - 48)
    }
}

/// A digit string denotes nothing negative.
pub proof fn lemma_dec_val_nonneg(s: Seq<u8>)
    requires
        forall|i: int| 0 <= i < s.len() ==> is_dec_digit(#[trigger] s[i]),
    ensures
        dec_val(s) >= 0,
    decreases s.len(),
{
    if s.len() > 0 {
        lemma_dec_val_nonneg(s.drop_last());
    }
}

/// Reading more digits never shrinks the value.
pub proof fn lemma_dec_val_prefix_le(s: Seq<u8>, i: int)
    requires
        forall|k: int| 0 <= k < s.len() ==> is_dec_digit(#[trigger] s[k]),
        0 <= i <= s.len(),
    ensures
        dec_val(s.subrange(0, i)) <= dec_val(s),
    decreases s.len() - i,
{
    if i == s.len() {
        assert(s.subrange(0, i) =~= s);
    } else {
        assert(s.subrange(0, i + 1).drop_last() =~= s.subrange(0, i));
        assert(dec_val(s.subrange(0, i + 1)) == dec_val(s.subrange(0, i)) * 10 + (s[i] - 48));
        lemma_dec_val_nonneg(s.subrange(0, i));
        lemma_dec_val_prefix_le(s, i + 1);
    }
}

/// Parse a decimal setting. Returns the value exactly when the string is
/// nonempty, all digits, and the value fits the machine; and nothing
/// otherwise.
pub fn parse_usize(s: &Vec<u8>) -> (r: Option<usize>)
    ensures
        r is Some <==> s@.len() > 0 && (forall|i: int|
            0 <= i < s@.len() ==> is_dec_digit(#[trigger] s@[i])) && dec_val(s@) <= usize::MAX,
        r is Some ==> r->Some_0 == dec_val(s@),
{
    if s.len() == 0 {
        return None;
    }
    let mut v: usize = 0;
    let mut i: usize = 0;
    proof {
        assert(s@.subrange(0, 0) =~= Seq::<u8>::empty());
    }
    while i < s.len()
        invariant
            i <= s@.len(),
            forall|k: int| 0 <= k < i ==> is_dec_digit(#[trigger] s@[k]),
            v == dec_val(s@.subrange(0, i as int)),
        decreases s@.len() - i,
    {
        let b = s[i];
        if b < 48 || b > 57 {
            return None;
        }
        let d: usize = (b - 48) as usize;
        proof {
            assert(s@.subrange(0, i + 1).drop_last() =~= s@.subrange(0, i as int));
            assert(dec_val(s@.subrange(0, i + 1)) == dec_val(s@.subrange(0, i as int)) * 10 + (
            s@[i as int] - 48));
        }
        if v > (usize::MAX - d) / 10 {
            proof {
                assert(usize::MAX - d == 10 * ((usize::MAX - d) / 10) + (usize::MAX - d) % 10);
                assert(dec_val(s@.subrange(0, i + 1)) > usize::MAX);
                if forall|k: int| 0 <= k < s@.len() ==> is_dec_digit(#[trigger] s@[k]) {
                    lemma_dec_val_prefix_le(s@, i + 1);
                }
            }
            return None;
        }
        v = v * 10 + d;
        i += 1;
    }
    proof {
        assert(s@.subrange(0, s@.len() as int) =~= s@);
    }
    Some(v)
}

/// The log levels the service recognises.
#[derive(Clone, Copy, PartialEq, Eq, Structural, Debug)]
pub enum LogLevel {
    Trace,
    Debug,
    Info,
    Warn,
    Error,
}

/// ASCII lowercase of one byte.
pub open spec fn ascii_lower(b: u8) -> u8 {
    if 65 <= b && b <= 90 {
        (b + 32) as u8
    } else {
        b
    }
}

/// ASCII lowercase of a string.
pub open spec fn lower_of(s: Seq<u8>) -> Seq<u8> {
    s.map_values(|b: u8| ascii_lower(b))
}

/// The level a setting string names, compared without regard to case.
pub open spec fn log_level_of(s: Seq<u8>) -> Option<LogLevel> {
    if lower_of(s) == seq![116u8, 114u8, 97u8, 99u8, 101u8] {
        Some(LogLevel::Trace)
    } else if lower_of(s) == seq![100u8, 101u8, 98u8, 117u8, 103u8] {
        Some(LogLevel::Debug)
    } else if lower_of(s) == seq![105u8, 110u8, 102u8, 111u8] {
        Some(LogLevel::Info)
    } else if lower_of(s) == seq![119u8, 97u8, 114u8, 110u8] {
        Some(LogLevel::Warn)
    } else if lower_of(s) == seq![101u8, 114u8, 114u8, 111u8, 114u8] {
        Some(LogLevel::Error)
    } else {
        None
    }
}

/// Parse a log-level setting: the five level names, any case.
pub fn parse_log_level(s: &Vec<u8>) -> (r: Option<LogLevel>)
    ensures
        r == log_level_of(s@),
{
    let mut low: Vec<u8> = Vec::new();
    let mut i: usize = 0;
    proof {
        assert(low@ =~= lower_of(s@.subrange(0, 0)));
    }
    while i < s.len()
        invariant
            i <= s@.len(),
            low@ == lower_of(s@.subrange(0, i as int)),
        decreases s@.len() - i,
    {
        let b = s[i];
        let lb: u8 = if 65 <= b && b <= 90 {
            b + 32
        } else {
            b
        };
        low.push(lb);
        proof {
            assert(low@ =~= lower_of(s@.subrange(0, i + 1)));
        }
        i += 1;
    }
    proof {
        assert(s@.subrange(0, s@.len() as int) =~= s@);
    }
    if low.len() == 5 && low[0] == 116 && low[1] == 114 && low[2] == 97 && low[3] == 99 && low[4]
        == 101 {
        proof {
            assert(low@ =~= seq![116u8, 114u8, 97u8, 99u8, 101u8]);
        }
        return Some(LogLevel::Trace);
    }
    if low.len() == 5 && low[0] == 100 && low[1] == 101 && low[2] == 98 && low[3] == 117 && low[4]
        == 103 {
        proof {
            assert(low@ =~= seq![100u8, 101u8, 98u8, 117u8, 103u8]);
        }
        return Some(LogLevel::Debug);
    }
    if low.len() == 4 && low[0] == 105 && low[1] == 110 && low[2] == 102 && low[3] == 111 {
        proof {
            assert(low@ =~= seq![105u8, 110u8, 102u8, 111u8]);
        }
        return Some(LogLevel::Info);
    }
    if low.len() == 4 && low[0] == 119 && low[1] == 97 && low[2] == 114 && low[3] == 110 {
        proof {
            assert(low@ =~= seq![119u8, 97u8, 114u8, 110u8]);
        }
        return Some(LogLevel::Warn);
    }
    if low.len() == 5 && low[0] == 101 && low[1] == 114 && low[2] == 114 && low[3] == 111 && low[4]
        == 114 {
        proof {
            assert(low@ =~= seq![101u8, 114u8, 114u8, 111u8, 114u8]);
        }
        return Some(LogLevel::Error);
    }
    proof {
        if lower_of(s@) == seq![116u8, 114u8, 97u8, 99u8, 101u8] {
            assert(low@[0] == 116u8);
        }
        if lower_of(s@) == seq![100u8, 101u8, 98u8, 117u8, 103u8] {
            assert(low@[0] == 100u8);
        }
        if lower_of(s@) == seq![105u8, 110u8, 102u8, 111u8] {
            assert(low@[0] == 105u8);
        }
        if lower_of(s@) == seq![119u8, 97u8, 114u8, 110u8] {
            assert(low@[0] == 119u8);
        }
        if lower_of(s@) == seq![101u8, 114u8, 114u8, 111u8, 114u8] {
            assert(low@[0] == 101u8);
        }
    }
    None
}

} // verus!
