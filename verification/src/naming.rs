//! Names of the files that a run writes: one per video chunk and one per
//! screenshot, each made of the numbers that identify it.

use crate::chunk::Chunk;
use vstd::prelude::*;
use vstd::string::StringExecFns;

verus! {

/// The character of a decimal digit.
pub open spec fn digit_char(d: nat) -> char {
    if d == 0 {
        '0'
    } else if d == 1 {
        '1'
    } else if d == 2 {
        '2'
    } else if d == 3 {
        '3'
    } else if d == 4 {
        '4'
    } else if d == 5 {
        '5'
    } else if d == 6 {
        '6'
    } else if d == 7 {
        '7'
    } else if d == 8 {
        '8'
    } else {
        '9'
    }
}

/// A number in decimal, without leading zeros.
pub open spec fn decimal_text(n: nat) -> Seq<char>
    decreases n,
{
    if n < 10 {
        seq![digit_char(n)]
    } else {
        decimal_text(n / 10).push(digit_char(n % 10))
    }
}

/// A name made of two numbers in decimal with `_` between them, after
/// `prefix` and before `suffix`.
pub open spec fn numbered_name(prefix: Seq<char>, a: nat, b: nat, suffix: Seq<char>) -> Seq<char> {
    prefix + decimal_text(a) + seq!['_'] + decimal_text(b) + suffix
}

/// The name of the file of a video chunk: its sequence number, then the
/// time of its first frame in milliseconds.
pub open spec fn chunk_name_text(sequence: u64, start_ms: u64) -> Seq<char> {
    numbered_name("chunk_"@, sequence as nat, start_ms as nat, ".mp4"@)
}

/// The name of the file of a screenshot: the frame's number, then the time
/// at which it was captured in milliseconds.
pub open spec fn screenshot_name_text(frame_number: u64, timestamp_ms: u64) -> Seq<char> {
    numbered_name("frame_"@, frame_number as nat, timestamp_ms as nat, ".png"@)
}

/// A number in decimal has at least one character, more than one from ten
/// on, and digits only.
pub proof fn lemma_decimal_text_digits(n: nat)
    ensures
        decimal_text(n).len() >= 1,
        n >= 10 ==> decimal_text(n).len() >= 2,
        forall|i: int|
            0 <= i < decimal_text(n).len() ==> (#[trigger] decimal_text(n)[i]) != '_',
    decreases n,
{
    if n >= 10 {
        lemma_decimal_text_digits(n / 10);
    }
}

/// Different numbers are written differently.
pub proof fn lemma_decimal_text_injective(a: nat, b: nat)
    requires
        decimal_text(a) == decimal_text(b),
    ensures
        a == b,
    decreases a,
{
    lemma_decimal_text_digits(a);
    lemma_decimal_text_digits(b);
    if a < 10 {
        assert(decimal_text(a)[0] == digit_char(a));
        assert(decimal_text(b)[0] == digit_char(b));
    } else {
        let pa = decimal_text(a / 10);
        let pb = decimal_text(b / 10);
        assert(pa =~= decimal_text(a).drop_last());
        assert(pb =~= decimal_text(b).drop_last());
        lemma_decimal_text_injective(a / 10, b / 10);
        assert(decimal_text(a).last() == digit_char(a % 10));
        assert(decimal_text(b).last() == digit_char(b % 10));
    }
}

/// Two names with the same prefix and suffix are equal only if they are
/// made of the same two numbers: no two chunks of a run, and no two
/// frames, get the same file name.
pub proof fn lemma_names_differ(
    prefix: Seq<char>,
    suffix: Seq<char>,
    a1: nat,
    b1: nat,
    a2: nat,
    b2: nat,
)
    requires
        numbered_name(prefix, a1, b1, suffix) == numbered_name(prefix, a2, b2, suffix),
    ensures
        a1 == a2,
        b1 == b2,
{
    let n1 = numbered_name(prefix, a1, b1, suffix);
    let n2 = numbered_name(prefix, a2, b2, suffix);
    let p = prefix.len() as int;
    let da1 = decimal_text(a1);
    let da2 = decimal_text(a2);
    let db1 = decimal_text(b1);
    let db2 = decimal_text(b2);
    lemma_decimal_text_digits(a1);
    lemma_decimal_text_digits(a2);
    let l1 = da1.len() as int;
    let l2 = da2.len() as int;
    assert(n1[p + l1] == '_');
    assert(n2[p + l2] == '_');
    if l1 < l2 {
        assert(n2[p + l1] == da2[l1]);
    } else if l2 < l1 {
        assert(n1[p + l2] == da1[l2]);
    }
    assert(l1 == l2);
    assert(da1 =~= n1.subrange(p, p + l1));
    assert(da2 =~= n2.subrange(p, p + l2));
    lemma_decimal_text_injective(a1, a2);
    assert(n1.len() == n2.len());
    assert(db1.len() == db2.len());
    let q = p + l1 + 1;
    assert(db1 =~= n1.subrange(q, q + db1.len()));
    assert(db2 =~= n2.subrange(q, q + db2.len()));
    lemma_decimal_text_injective(b1, b2);
}

fn digit_str(d: u64) -> (s: &'static str)
    requires
        d < 10,
    ensures
        s@ == seq![digit_char(d as nat)],
{
    proof {
        reveal_strlit("0");
        reveal_strlit("1");
        reveal_strlit("2");
        reveal_strlit("3");
        reveal_strlit("4");
        reveal_strlit("5");
        reveal_strlit("6");
        reveal_strlit("7");
        reveal_strlit("8");
        reveal_strlit("9");
    }
    let s = if d == 0 {
        "0"
    } else if d == 1 {
        "1"
    } else if d == 2 {
        "2"
    } else if d == 3 {
        "3"
    } else if d == 4 {
        "4"
    } else if d == 5 {
        "5"
    } else if d == 6 {
        "6"
    } else if d == 7 {
        "7"
    } else if d == 8 {
        "8"
    } else {
        "9"
    };
    assert(s@ =~= seq![digit_char(d as nat)]);
    s
}

fn push_decimal(s: &mut String, n: u64)
    ensures
        final(s)@ == old(s)@ + decimal_text(n as nat),
    decreases n,
{
    if n >= 10 {
        push_decimal(s, n / 10);
    }
    let d = digit_str(n % 10);
    s.append(d);
    proof {
        if n >= 10 {
            assert(s@ =~= old(s)@ + decimal_text((n / 10) as nat).push(
                digit_char((n % 10) as nat),
            ));
        } else {
            assert(s@ =~= old(s)@ + seq![digit_char(n as nat)]);
        }
    }
}

/// A number in decimal.
pub fn decimal(n: u64) -> (s: String)
    ensures
        s@ == decimal_text(n as nat),
{
    let mut s = String::new();
    push_decimal(&mut s, n);
    assert(s@ =~= decimal_text(n as nat));
    s
}

/// The name of the file that a chunk is written to.
pub fn chunk_file_name(chunk: &Chunk) -> (name: String)
    ensures
        name@ == chunk_name_text(chunk.sequence, chunk.start_ms),
{
    let mut name = String::from_str("chunk_");
    push_decimal(&mut name, chunk.sequence);
    name.append("_");
    push_decimal(&mut name, chunk.start_ms);
    name.append(".mp4");
    proof {
        reveal_strlit("_");
        assert("_"@ =~= seq!['_']);
    }
    name
}

/// The name of the file that a frame's screenshot is written to.
pub fn screenshot_file_name(frame_number: u64, timestamp_ms: u64) -> (name: String)
    ensures
        name@ == screenshot_name_text(frame_number, timestamp_ms),
{
    let mut name = String::from_str("frame_");
    push_decimal(&mut name, frame_number);
    name.append("_");
    push_decimal(&mut name, timestamp_ms);
    name.append(".png");
    proof {
        reveal_strlit("_");
        assert("_"@ =~= seq!['_']);
    }
    name
}

} // verus!
