//! Startup configuration and frame pacing decisions.
//!
//! The process arguments select the backend, the window size and a couple
//! of toggles; an unrecognized argument is fatal before any window exists.
//! Parsing is done here on the argument's bytes; the host only reports the
//! error and exits.  The pacing rule at the bottom keeps the driver at its
//! fixed cadence: sleep whatever remains of the frame budget, never catch
//! up.

use vstd::prelude::*;

verus! {

/// Canvas width used when none is requested and not fullscreen.
pub const DEFAULT_WIDTH: u32 = 800;

/// Canvas height used when none is requested and not fullscreen.
pub const DEFAULT_HEIGHT: u32 = 600;

/// The driver's target cadence, frames per second.
pub const FPS: u32 = 60;

/// One frame's budget in milliseconds.
pub const FRAME_DURATION_MS: u64 = 1000 / 60;

/// One recognized process argument, or the fact that it is not one.
#[derive(Clone, Copy, Debug, PartialEq, Eq, Structural)]
pub enum StartupArg {
    Gpu,
    Cpu,
    Framerate,
    Fullscreen,
    Width(u32),
    Height(u32),
    Invalid,
}

/// Whether a byte is a decimal digit.
pub open spec fn is_digit(b: u8) -> bool {
    48 <= b <= 57
}

/// Whether every byte of the sequence is a decimal digit.
pub open spec fn all_digits(s: Seq<u8>) -> bool {
    forall|i: int| 0 <= i < s.len() ==> is_digit(#[trigger] s[i])
}

/// The number a digit sequence denotes.
pub open spec fn digits_val(s: Seq<u8>) -> int
    decreases s.len(),
{
    if s.len() == 0 {
        0
    } else {
        digits_val(s.drop_last()) * 10 + (s.last() - 48)
    }
}

/// A dimension argument: a marker byte, `=`, and at least one digit whose
/// value fits a `u32`.
pub open spec fn is_dim_arg(s: Seq<u8>, marker: u8) -> bool {
    s.len() >= 3 && s[0] == marker && s[1] == 61 && all_digits(s.skip(2)) && digits_val(s.skip(2))
        <= 0xffff_ffff
}

/// What one argument means.
pub open spec fn parse_arg_spec(s: Seq<u8>) -> StartupArg {
    if s == seq![103u8, 112u8, 117u8] {
        StartupArg::Gpu
    } else if s == seq![99u8, 112u8, 117u8] {
        StartupArg::Cpu
    } else if s == seq![102u8, 114u8, 97u8, 109u8, 101u8, 114u8, 97u8, 116u8, 101u8] {
        StartupArg::Framerate
    } else if s == seq![102u8, 117u8, 108u8, 108u8, 115u8, 99u8, 114u8, 101u8, 101u8, 110u8] {
        StartupArg::Fullscreen
    } else if is_dim_arg(s, 119) {
        StartupArg::Width(digits_val(s.skip(2)) as u32)
    } else if is_dim_arg(s, 104) {
        StartupArg::Height(digits_val(s.skip(2)) as u32)
    } else {
        StartupArg::Invalid
    }
}

/// The value of a digit prefix never shrinks as digits are appended.
proof fn lemma_digits_nonneg(s: Seq<u8>)
    requires
        all_digits(s),
    ensures
        digits_val(s) >= 0,
    decreases s.len(),
{
    if s.len() > 0 {
        assert(all_digits(s.drop_last())) by {
            assert(forall|i: int|
                0 <= i < s.drop_last().len() ==> #[trigger] s.drop_last()[i] == s[i]);
        }
        lemma_digits_nonneg(s.drop_last());
    }
}

/// Compare an argument against a keyword.
fn bytes_eq(s: &Vec<u8>, t: &Vec<u8>) -> (r: bool)
    ensures
        r <==> s@ == t@,
{
    if s.len() != t.len() {
        proof {
            assert(s@.len() != t@.len());
        }
        return false;
    }
    let mut i: usize = 0;
    while i < s.len()
        invariant
            i <= s@.len(),
            s@.len() == t@.len(),
            forall|k: int| 0 <= k < i ==> s@[k] == t@[k],
        decreases s@.len() - i,
    {
        if s[i] != t[i] {
            return false;
        }
        i = i + 1;
    }
    proof {
        assert(s@ =~= t@);
    }
    true
}

/// Parse the digits after the `x=` prefix: the denoted number, capped just
/// above the largest `u32` so an oversized number is recognizable.
fn parse_digits(s: &Vec<u8>, from: usize) -> (r: Option<u64>)
    requires
        from <= s@.len(),
    ensures
        r is Some <==> s@.len() > from && all_digits(s@.skip(from as int)),
        r is Some ==> r->0 == if digits_val(s@.skip(from as int)) >= 0x1_0000_0000 {
            0x1_0000_0000
        } else {
            digits_val(s@.skip(from as int))
        },
{
    if s.len() == from {
        return None;
    }
    let mut val: u64 = 0;
    let mut i: usize = from;
    let ghost tail = s@.skip(from as int);
    while i < s.len()
        invariant
            from <= i <= s@.len(),
            tail == s@.skip(from as int),
            all_digits(tail.take(i - from)),
            digits_val(tail.take(i - from)) >= 0,
            val == if digits_val(tail.take(i - from)) >= 0x1_0000_0000 {
                0x1_0000_0000u64
            } else {
                digits_val(tail.take(i - from)) as u64
            },
        decreases s@.len() - i,
    {
        let b = s[i];
        if b < 48 || b > 57 {
            proof {
                assert(tail[i - from] == s@[i as int]);
                assert(!is_digit(tail[i - from]));
            }
            return None;
        }
        let d: u64 = (b - 48) as u64;
        let next: u64 = if val > 0xffff_ffff {
            0x1_0000_0000
        } else if val * 10 + d > 0x1_0000_0000 {
            0x1_0000_0000
        } else {
            val * 10 + d
        };
        proof {
            let pre = tail.take(i - from);
            let post = tail.take(i - from + 1);
            assert(post.drop_last() =~= pre);
            assert(post.last() == tail[i - from] == s@[i as int]);
            assert(digits_val(post) == digits_val(pre) * 10 + (b - 48));
            assert(forall|k: int| 0 <= k < post.len() ==> is_digit(#[trigger] post[k]));
        }
        val = next;
        i = i + 1;
    }
    proof {
        assert(tail.take(s@.len() - from) =~= tail);
    }
    Some(val)
}

/// Decode one process argument.  Exactly [`parse_arg_spec`]: the four
/// keywords, a width or height assignment whose number fits a `u32`, and
/// nothing else.
pub fn parse_arg(arg: &Vec<u8>) -> (r: StartupArg)
    ensures
        r == parse_arg_spec(arg@),
{
    let gpu: Vec<u8> = make_word3(103, 112, 117);
    if bytes_eq(arg, &gpu) {
        return StartupArg::Gpu;
    }
    let cpu: Vec<u8> = make_word3(99, 112, 117);
    if bytes_eq(arg, &cpu) {
        return StartupArg::Cpu;
    }
    let framerate: Vec<u8> = make_framerate();
    if bytes_eq(arg, &framerate) {
        return StartupArg::Framerate;
    }
    let fullscreen: Vec<u8> = make_fullscreen();
    if bytes_eq(arg, &fullscreen) {
        return StartupArg::Fullscreen;
    }
    if arg.len() >= 3 && (arg[0] == 119 || arg[0] == 104) && arg[1] == 61 {
        let parsed = parse_digits(arg, 2);
        match parsed {
            Option::Some(v) => {
                if v <= 0xffff_ffff {
                    proof {
                        lemma_digits_nonneg(arg@.skip(2));
                    }
                    if arg[0] == 119 {
                        return StartupArg::Width(v as u32);
                    }
                    return StartupArg::Height(v as u32);
                }
                return StartupArg::Invalid;
            },
            Option::None => {
                return StartupArg::Invalid;
            },
        }
    }
    StartupArg::Invalid
}

/// The bytes of a three-letter keyword.
fn make_word3(a: u8, b: u8, c: u8) -> (r: Vec<u8>)
    ensures
        r@ == seq![a, b, c],
{
    let mut v: Vec<u8> = Vec::new();
    v.push(a);
    v.push(b);
    v.push(c);
    proof {
        assert(v@ =~= seq![a, b, c]);
    }
    v
}

/// The bytes of the framerate toggle.
fn make_framerate() -> (r: Vec<u8>)
    ensures
        r@ == seq![102u8, 114u8, 97u8, 109u8, 101u8, 114u8, 97u8, 116u8, 101u8],
{
    let mut v: Vec<u8> = Vec::new();
    v.push(102);
    v.push(114);
    v.push(97);
    v.push(109);
    v.push(101);
    v.push(114);
    v.push(97);
    v.push(116);
    v.push(101);
    proof {
        assert(v@ =~= seq![102u8, 114u8, 97u8, 109u8, 101u8, 114u8, 97u8, 116u8, 101u8]);
    }
    v
}

/// The bytes of the fullscreen toggle.
fn make_fullscreen() -> (r: Vec<u8>)
    ensures
        r@ == seq![102u8, 117u8, 108u8, 108u8, 115u8, 99u8, 114u8, 101u8, 101u8, 110u8],
{
    let mut v: Vec<u8> = Vec::new();
    v.push(102);
    v.push(117);
    v.push(108);
    v.push(108);
    v.push(115);
    v.push(99);
    v.push(114);
    v.push(101);
    v.push(101);
    v.push(110);
    proof {
        assert(v@ =~= seq![102u8, 117u8, 108u8, 108u8, 115u8, 99u8, 114u8, 101u8, 101u8, 110u8]);
    }
    v
}

/// Pick one canvas dimension: the requested value if any, else the display's
/// own in fullscreen, else the fixed default.
pub fn resolve_dimension(requested: Option<u32>, fullscreen: bool, display: u32, fallback: u32)
    -> (r: u32)
    ensures
        r == match requested {
            Option::Some(v) => v,
            Option::None => if fullscreen {
                display
            } else {
                fallback
            },
        },
{
    match requested {
        Option::Some(v) => v,
        Option::None => if fullscreen {
            display
        } else {
            fallback
        },
    }
}

/// How long the driver sleeps after a frame: the rest of the frame budget,
/// and nothing when the frame overran — the next one starts at once.
pub fn frame_sleep_ms(elapsed_ms: u64, target_ms: u64) -> (r: u64)
    ensures
        r == if elapsed_ms < target_ms {
            target_ms - elapsed_ms
        } else {
            0
        },
{
    if elapsed_ms < target_ms {
        target_ms - elapsed_ms
    } else {
        0
    }
}

} // verus!
