use vstd::prelude::*;
use vstd::string::*;

verus! {

/// The width to which the sequence number of a catalog code is padded.
pub const CODE_DIGITS: u64 = 7;

pub open spec fn digit_chars() -> Seq<char> {
    seq!['0', '1', '2', '3', '4', '5', '6', '7', '8', '9']
}

/// The decimal digits of `n`, padded with zeros on the left to `width`.
pub open spec fn padded_digits(n: nat, width: nat) -> Seq<char>
    decreases n, width,
{
    if n == 0 && width == 0 {
        Seq::empty()
    } else {
        padded_digits(
            n / 10,
            if width > 0 {
                (width - 1) as nat
            } else {
                0
            },
        ).push(digit_chars()[(n % 10) as int])
    }
}

pub open spec fn cs_prefix() -> Seq<char> {
    seq!['C', 'S']
}

pub open spec fn st_prefix() -> Seq<char> {
    seq!['S', 'T']
}

/// The category of a new catalog item: `CS` when the hint says so, `ST`
/// otherwise.
pub open spec fn code_prefix(hint: Seq<char>) -> Seq<char> {
    if hint == cs_prefix() {
        cs_prefix()
    } else {
        st_prefix()
    }
}

/// The catalog code `<prefix>-<number padded to seven digits>`.
pub open spec fn code_text(prefix: Seq<char>, n: nat) -> Seq<char> {
    prefix.push('-') + padded_digits(n, CODE_DIGITS as nat)
}

fn append_padded(s: &mut String, n: u64, width: u64)
    ensures
        final(s)@ == old(s)@ + padded_digits(n as nat, width as nat),
    decreases n, width,
{
    if n == 0 && width == 0 {
        assert(old(s)@ + Seq::<char>::empty() =~= old(s)@);
        return;
    }
    let w = if width > 0 {
        width - 1
    } else {
        0
    };
    append_padded(s, n / 10, w);
    let d = (n % 10) as usize;
    proof {
        reveal_strlit("0123456789");
        assert("0123456789"@ =~= digit_chars());
    }
    let digit = "0123456789".substring_char(d, d + 1);
    let ghost mid = s@;
    s.append(digit);
    assert(digit@ =~= seq![digit_chars()[d as int]]);
    assert(s@ =~= old(s)@ + padded_digits(n as nat, width as nat));
}

/// The decimal digits of `n`.
pub fn decimal_text(n: u64) -> (r: String)
    ensures
        r@ == padded_digits(n as nat, 1),
{
    let mut s = String::new();
    append_padded(&mut s, n, 1);
    assert(s@ =~= padded_digits(n as nat, 1));
    s
}

/// Whether the hint names the `CS` category.
pub fn is_cs_hint(hint: &str) -> (r: bool)
    ensures
        r == (hint@ == cs_prefix()),
{
    proof {
        reveal_strlit("CS");
        assert("CS"@ =~= cs_prefix());
    }
    crate::text::text_eq(hint, "CS")
}

/// The catalog code for sequence number `n` of the category.
pub fn format_code(cs: bool, n: u64) -> (r: String)
    ensures
        r@ == code_text(if cs { cs_prefix() } else { st_prefix() }, n as nat),
{
    proof {
        reveal_strlit("CS-");
        reveal_strlit("ST-");
        assert("CS-"@ =~= cs_prefix().push('-'));
        assert("ST-"@ =~= st_prefix().push('-'));
    }
    let mut s = if cs {
        String::from_str("CS-")
    } else {
        String::from_str("ST-")
    };
    append_padded(&mut s, n, CODE_DIGITS);
    s
}

} // verus!
