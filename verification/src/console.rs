//! What goes to the console: the bytes of a text as the console is to
//! receive them, and the escape sequences that colour a text.

use vstd::prelude::*;

verus! {

/// The escape character.
pub const ESC: u8 = 27;

/// The delete character, which a terminal sends for the backspace key.
pub const DEL: u8 = 127;

/// The backspace character.
pub const BS: u8 = 8;

/// What the console receives for the byte `c`: a delete rubs out the
/// character before it, by a step back, a blank and another step back.
pub open spec fn echo_of(c: u8) -> Seq<u8> {
    if c == DEL {
        seq![BS, 32u8, BS]
    } else {
        seq![c]
    }
}

/// What the console receives for the text `s`.
pub open spec fn echoed(s: Seq<u8>) -> Seq<u8>
    decreases s.len(),
{
    if s.len() == 0 {
        Seq::<u8>::empty()
    } else {
        echoed(s.drop_last()) + echo_of(s.last())
    }
}

/// The decimal digits of `n`, as characters.
pub open spec fn decimal(n: nat) -> Seq<u8>
    decreases n,
{
    if n < 10 {
        seq![(48 + n) as u8]
    } else {
        decimal(n / 10) + seq![(48 + n % 10) as u8]
    }
}

/// `text` between the escape sequences that switch to the colour
/// `color_code` and back to the default.
pub open spec fn colored(text: Seq<u8>, color_code: u8) -> Seq<u8> {
    seq![ESC, 91u8] + decimal(color_code as nat) + seq![109u8] + text + seq![ESC, 91u8, 48u8, 109u8]
}

/// The colour in which core `hart_id` writes.
pub open spec fn hart_color(hart_id: usize) -> u8 {
    if hart_id == 0 {
        96
    } else if hart_id == 1 {
        94
    } else if hart_id == 2 {
        95
    } else if hart_id == 3 {
        93
    } else {
        97
    }
}

/// The console.
#[derive(Clone, Copy, Debug)]
pub struct Console;

impl Console {
    /// The bytes that are to be sent, one by one, so that `s` appears.
    pub fn write_str(&mut self, s: &[u8]) -> (out: Vec<u8>)
        ensures
            out@ == echoed(s@),
    {
        let mut out: Vec<u8> = Vec::new();
        let mut i: usize = 0;
        while i < s.len()
            invariant
                i <= s.len(),
                out@ == echoed(s@.subrange(0, i as int)),
            decreases s.len() - i,
        {
            let c = s[i];
            proof {
                assert(s@.subrange(0, i + 1).drop_last() =~= s@.subrange(0, i as int));
            }
            if c == DEL {
                out.push(BS);
                out.push(32);
                out.push(BS);
            } else {
                out.push(c);
            }
            proof {
                assert(out@ =~= echoed(s@.subrange(0, i as int)) + echo_of(c));
            }
            i += 1;
        }
        proof {
            assert(s@.subrange(0, s.len() as int) =~= s@);
        }
        out
    }
}

/// Appends the decimal digits of `n` to `out`.
pub fn push_decimal(out: &mut Vec<u8>, n: usize)
    ensures
        final(out)@ == old(out)@ + decimal(n as nat),
    decreases n,
{
    if n >= 10 {
        push_decimal(out, n / 10);
    }
    out.push(48 + (n % 10) as u8);
    proof {
        if n >= 10 {
            assert(out@ =~= old(out)@ + (decimal((n / 10) as nat) + seq![(48 + n % 10) as u8]));
        } else {
            assert(out@ =~= old(out)@ + seq![(48 + n) as u8]);
        }
    }
}

/// Appends `text` to `out`.
pub fn push_all(out: &mut Vec<u8>, text: &[u8])
    ensures
        final(out)@ == old(out)@ + text@,
{
    let mut i: usize = 0;
    while i < text.len()
        invariant
            i <= text.len(),
            out@ == old(out)@ + text@.subrange(0, i as int),
        decreases text.len() - i,
    {
        out.push(text[i]);
        proof {
            assert(out@ =~= old(out)@ + text@.subrange(0, i + 1));
        }
        i += 1;
    }
    proof {
        assert(text@.subrange(0, text.len() as int) =~= text@);
    }
}

/// `args` between the escape sequences that switch to the colour
/// `color_code` and back.
pub fn print_in_color(args: &[u8], color_code: u8) -> (out: Vec<u8>)
    ensures
        out@ == colored(args@, color_code),
{
    let mut out: Vec<u8> = Vec::new();
    out.push(ESC);
    out.push(91);
    push_decimal(&mut out, color_code as usize);
    out.push(109);
    push_all(&mut out, args);
    out.push(ESC);
    out.push(91);
    out.push(48);
    out.push(109);
    proof {
        assert(out@ =~= colored(args@, color_code));
    }
    out
}

/// What core `hart_id` sends to the console to print `args`: the text in
/// the colour of the core.
pub fn print(hart_id: usize, args: &[u8]) -> (out: Vec<u8>)
    ensures
        out@ == colored(args@, hart_color(hart_id)),
{
    let color: u8 = match hart_id {
        0 => 96,
        1 => 94,
        2 => 95,
        3 => 93,
        _ => 97,
    };
    print_in_color(args, color)
}

} // verus!
