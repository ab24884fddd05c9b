//! Program text: one instruction word per line, written as sixteen binary
//! digits with the most significant bit first.
use vstd::prelude::*;
use vstd::arithmetic::power2::{pow2, lemma2_to64, lemma_pow2_unfold, lemma_pow2_strictly_increases};
use vstd::string::StringSliceAdditionalSpecFns;
use crate::machine::{EmuError, ROM_SIZE};

verus! {

/// The byte that ends a line.
pub const NEWLINE: u8 = 10;

/// A byte that may stand before the newline and is not part of the line.
pub const CARRIAGE_RETURN: u8 = 13;

/// The digit zero.
pub const DIGIT_ZERO: u8 = 48;

/// The digit one.
pub const DIGIT_ONE: u8 = 49;

/// Number of bytes before the first newline (all of them when there is none).
pub open spec fn line_end(s: Seq<u8>) -> nat
    decreases s.len(),
{
    if s.len() == 0 {
        0
    } else if s[0] == NEWLINE {
        0
    } else {
        1 + line_end(s.skip(1))
    }
}

/// A line without the carriage return that may end it.
pub open spec fn strip_cr(l: Seq<u8>) -> Seq<u8> {
    if l.len() > 0 && l.last() == CARRIAGE_RETURN {
        l.drop_last()
    } else {
        l
    }
}

/// The lines of a text: split at each newline, with no empty line after a
/// final newline, and without a carriage return before a newline.
pub open spec fn text_lines(s: Seq<u8>) -> Seq<Seq<u8>>
    decreases s.len(),
{
    if s.len() == 0 {
        Seq::empty()
    } else {
        let k = line_end(s);
        let rest = if k < s.len() { s.skip(k + 1int) } else { Seq::empty() };
        seq![strip_cr(s.take(k as int))] + text_lines(rest)
    }
}

/// Exactly sixteen characters, each `0` or `1`.
pub open spec fn is_word_line(l: Seq<u8>) -> bool {
    &&& l.len() == 16
    &&& forall|j: int| 0 <= j < 16 ==> (#[trigger] l[j] == DIGIT_ZERO || l[j] == DIGIT_ONE)
}

/// The number that a line of binary digits writes, most significant first.
pub open spec fn bits_value(l: Seq<u8>) -> nat
    decreases l.len(),
{
    if l.len() == 0 {
        0
    } else {
        2 * bits_value(l.drop_last()) + if l.last() == DIGIT_ONE { 1nat } else { 0nat }
    }
}

/// The text is a program: at most one line per instruction-store word, and
/// each line a word.
pub open spec fn is_program(s: Seq<u8>) -> bool {
    &&& text_lines(s).len() <= ROM_SIZE
    &&& forall|i: int| 0 <= i < text_lines(s).len() ==> is_word_line(#[trigger] text_lines(s)[i])
}

/// The words that the lines of a program write, in order.
pub open spec fn program_words(s: Seq<u8>) -> Seq<u16> {
    text_lines(s).map_values(|l: Seq<u8>| bits_value(l) as u16)
}

proof fn lemma_line_end(t: Seq<u8>, k: nat)
    requires
        k <= t.len(),
        forall|j: int| 0 <= j < k ==> t[j] != NEWLINE,
        k < t.len() ==> t[k as int] == NEWLINE,
    ensures
        line_end(t) == k,
    decreases k,
{
    if t.len() > 0 && t[0] != NEWLINE {
        lemma_line_end(t.skip(1), (k - 1) as nat);
    }
}

/// Reads a program text into its instruction words; fails with
/// `FormatError` unless the text is a program.
pub fn parse_program(code: &str) -> (r: Result<Vec<u16>, EmuError>)
    ensures
        r is Ok <==> is_program(code.spec_bytes()),
        r is Ok ==> r->Ok_0@ == program_words(code.spec_bytes()),
        r is Err ==> r->Err_0 == EmuError::FormatError,
{
    let b = code.as_bytes();
    let ghost s = b@;
    let n = b.len();
    let mut words: Vec<u16> = Vec::new();
    let ghost mut done: Seq<Seq<u8>> = Seq::empty();
    let mut pos: usize = 0;
    proof {
        assert(s.skip(0) =~= s);
    }
    while pos < n
        invariant
            b@ == s,
            s == code.spec_bytes(),
            n == s.len(),
            pos <= n,
            text_lines(s) == done + text_lines(s.skip(pos as int)),
            words.len() == done.len(),
            done.len() <= ROM_SIZE,
            forall|i: int| 0 <= i < done.len() ==> is_word_line(#[trigger] done[i]),
            forall|i: int| 0 <= i < done.len() ==> words@[i] == bits_value(#[trigger] done[i]) as u16,
        decreases n - pos,
    {
        let mut k = pos;
        while k < n && b[k] != NEWLINE
            invariant
                b@ == s,
                s == code.spec_bytes(),
                n == s.len(),
                pos <= k <= n,
                forall|j: int| pos <= j < k ==> s[j] != NEWLINE,
            decreases n - k,
        {
            k = k + 1;
        }
        let ghost t = s.skip(pos as int);
        let ghost line = strip_cr(s.subrange(pos as int, k as int));
        let ghost rest = if k < n { s.skip(k + 1int) } else { Seq::<u8>::empty() };
        proof {
            lemma_line_end(t, (k - pos) as nat);
            assert(t.take((k - pos) as int) =~= s.subrange(pos as int, k as int));
            if k < n {
                assert(t.skip((k - pos) + 1) =~= rest);
            }
            assert(text_lines(t) == seq![line] + text_lines(rest));
            assert(text_lines(s) == done.push(line) + text_lines(rest)) by {
                assert(done + (seq![line] + text_lines(rest)) =~= done.push(line) + text_lines(rest));
            }
        }
        let end = if k > pos && b[k - 1] == CARRIAGE_RETURN { k - 1 } else { k };
        proof {
            assert(line =~= s.subrange(pos as int, end as int));
        }
        if end - pos != 16 || words.len() >= ROM_SIZE {
            proof {
                assert(text_lines(s)[done.len() as int] == line);
                assert(text_lines(s).len() == done.len() + 1 + text_lines(rest).len());
                if end - pos != 16 {
                    assert(!is_word_line(text_lines(s)[done.len() as int]));
                } else {
                    assert(text_lines(s).len() > ROM_SIZE);
                }
                assert(!is_program(s));
            }
            return Err(EmuError::FormatError);
        }
        proof {
            lemma2_to64();
            assert(s.subrange(pos as int, pos as int) =~= Seq::<u8>::empty());
        }
        let mut v: u16 = 0;
        let mut j = pos;
        while j < end
            invariant
                b@ == s,
                s == code.spec_bytes(),
                n == s.len(),
                pos <= j <= end,
                end == pos + 16,
                end <= n,
                line == s.subrange(pos as int, end as int),
                text_lines(s) == done.push(line) + text_lines(rest),
                v as nat == bits_value(s.subrange(pos as int, j as int)),
                (v as nat) < pow2((j - pos) as nat),
                forall|t: int| pos <= t < j ==> (s[t] == DIGIT_ZERO || s[t] == DIGIT_ONE),
            decreases end - j,
        {
            let c = b[j];
            proof {
                lemma_pow2_unfold((j + 1 - pos) as nat);
                lemma2_to64();
                if j + 1 - pos < 16 {
                    lemma_pow2_strictly_increases((j + 1 - pos) as nat, 16);
                }
                let p = s.subrange(pos as int, j + 1);
                assert(p.drop_last() =~= s.subrange(pos as int, j as int));
            }
            if c == DIGIT_ZERO {
                v = v * 2;
            } else if c == DIGIT_ONE {
                v = v * 2 + 1;
            } else {
                proof {
                    assert(line[j - pos] == c);
                    assert(text_lines(s)[done.len() as int] == line);
                    assert(!is_word_line(text_lines(s)[done.len() as int]));
                    assert(!is_program(s));
                }
                return Err(EmuError::FormatError);
            }
            j = j + 1;
        }
        proof {
            assert(is_word_line(line));
        }
        words.push(v);
        proof {
            done = done.push(line);
        }
        pos = if k < n { k + 1 } else { n };
        proof {
            if k >= n {
                assert(s.skip(n as int) =~= Seq::<u8>::empty());
            }
        }
    }
    proof {
        assert(s.skip(n as int) =~= Seq::<u8>::empty());
        assert(text_lines(s) =~= done);
        assert(words@ =~= program_words(s));
    }
    Ok(words)
}

} // verus!
