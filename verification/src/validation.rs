//! Submission validation: the seed-sequence text and the generation count.
//!
//! The sequence text is a newline-separated list of tokens. Each line is
//! trimmed of surrounding blanks; empty lines are skipped. Every remaining
//! token must be exactly 20 characters over the alphabet {A, C, G, U}, case
//! insensitive, and at most 10000 tokens are admitted. The generation count
//! is a decimal integer in [1, 10000]. Validation runs before any
//! persistence and reports the first violation, with its 1-based line index
//! where one applies.

use vstd::prelude::*;

verus! {

/// Most tokens a submission may carry.
pub const MAX_SEQUENCES: usize = 10000;

/// Exact length of each sequence token.
pub const SEQUENCE_LENGTH: usize = 20;

/// Smallest accepted generation count.
pub const MIN_GEN_NUM: u32 = 1;

/// Largest accepted generation count.
pub const MAX_GEN_NUM: u32 = 10000;

/// Why a submission was rejected before any side effect.
#[derive(Clone, Copy, Debug, PartialEq, Eq, Structural)]
pub enum ValidationError {
    /// More than `MAX_SEQUENCES` non-empty lines.
    TooManySequences { count: usize },
    /// A character outside {A, C, G, U} (either case) on this 1-based line.
    InvalidCharacters { line: usize },
    /// A token of the wrong length on this 1-based line.
    WrongLength { line: usize, length: usize },
    /// The generation count is not a decimal number.
    NotANumber,
    /// The generation count lies outside [`MIN_GEN_NUM`, `MAX_GEN_NUM`].
    GenNumOutOfRange { value: u32 },
}

/// Blank bytes stripped from both ends of a line: space, tab, vertical tab,
/// form feed and carriage return.
pub open spec fn is_blank(c: u8) -> bool {
    c == 32 || c == 9 || c == 11 || c == 12 || c == 13
}

/// One of the eight accepted sequence characters.
pub open spec fn is_base(c: u8) -> bool {
    ||| c == 65 || c == 67 || c == 71 || c == 85  // 'A' 'C' 'G' 'U'
    ||| c == 97 || c == 99 || c == 103 || c == 117  // 'a' 'c' 'g' 'u'
}

/// Index of the first newline of `s`, or `s.len()` if there is none.
pub open spec fn first_newline(s: Seq<u8>) -> nat
    decreases s.len(),
{
    if s.len() == 0 {
        0
    } else if s[0] == 10 {
        0
    } else {
        1 + first_newline(s.drop_first())
    }
}

/// `first_newline` is exactly the scan that stops at the first newline.
pub proof fn lemma_first_newline_at(s: Seq<u8>, i: int)
    requires
        0 <= i <= s.len(),
        forall|k: int| 0 <= k < i ==> s[k] != 10,
        i < s.len() ==> s[i] == 10,
    ensures
        first_newline(s) == i,
    decreases s.len(),
{
    if s.len() > 0 && s[0] != 10 {
        lemma_first_newline_at(s.drop_first(), i - 1);
    }
}

/// `s` with blanks stripped from both ends.
pub open spec fn trim(s: Seq<u8>) -> Seq<u8>
    decreases s.len(),
{
    if s.len() == 0 {
        s
    } else if is_blank(s[0]) {
        trim(s.drop_first())
    } else if is_blank(s[s.len() - 1]) {
        trim(s.drop_last())
    } else {
        s
    }
}

/// Trimming keeps exactly the part between the leading and trailing blanks.
pub proof fn lemma_trim_range(s: Seq<u8>, lo: int, hi: int)
    requires
        0 <= lo <= hi <= s.len(),
        forall|k: int| 0 <= k < lo ==> is_blank(s[k]),
        forall|k: int| hi <= k < s.len() ==> is_blank(s[k]),
        lo < hi ==> !is_blank(s[lo]) && !is_blank(s[hi - 1]),
    ensures
        trim(s) =~= s.subrange(lo, hi),
    decreases s.len(),
{
    if s.len() == 0 {
    } else if is_blank(s[0]) {
        if lo == 0 {
            // lo < hi would put a non-blank at s[0]; so the line is all blank.
            lemma_trim_range(s.drop_first(), 0, 0);
        } else {
            lemma_trim_range(s.drop_first(), lo - 1, hi - 1);
            assert(s.drop_first().subrange(lo - 1, hi - 1) =~= s.subrange(lo, hi));
        }
    } else if is_blank(s[s.len() - 1]) {
        // s[0] is not blank, so lo == 0 and, since the last byte is blank,
        // hi stays short of it.
        assert(hi < s.len()) by {
            if hi == s.len() {
                assert(lo < hi ==> !is_blank(s[hi - 1]));
                assert(forall|k: int| 0 <= k < lo ==> is_blank(s[k]));
            }
        }
        lemma_trim_range(s.drop_last(), lo, hi);
        assert(s.drop_last().subrange(lo, hi) =~= s.subrange(lo, hi));
    } else {
        assert(lo == 0);
        assert(hi == s.len());
    }
}

/// The trimmed, non-empty lines of `s`, in order.
pub open spec fn tokens(s: Seq<u8>) -> Seq<Seq<u8>>
    decreases s.len(),
{
    if s.len() == 0 {
        Seq::empty()
    } else {
        let i = first_newline(s);
        if i >= s.len() {
            let t = trim(s);
            if t.len() == 0 {
                Seq::empty()
            } else {
                seq![t]
            }
        } else {
            let t = trim(s.subrange(0, i as int));
            let rest = tokens(s.subrange(i as int + 1, s.len() as int));
            if t.len() == 0 {
                rest
            } else {
                seq![t] + rest
            }
        }
    }
}

/// Whether a byte is blank, matching `is_blank`.
fn blank(c: u8) -> (b: bool)
    ensures
        b == is_blank(c),
{
    c == 32 || c == 9 || c == 11 || c == 12 || c == 13
}

/// Whether a byte is an accepted sequence character, matching `is_base`.
fn base(c: u8) -> (b: bool)
    ensures
        b == is_base(c),
{
    c == 65 || c == 67 || c == 71 || c == 85 || c == 97 || c == 99 || c == 103 || c == 117
}

/// Split `s` into trimmed, non-empty lines.
#[verifier::loop_isolation(false)]
#[verifier::rlimit(80)]
pub fn tokenize(s: &[u8]) -> (r: Vec<Vec<u8>>)
    ensures
        r.deep_view() == tokens(s@),
{
    let mut toks: Vec<Vec<u8>> = Vec::new();
    let mut pos: usize = 0;
    proof {
        assert(s@.subrange(0, s@.len() as int) =~= s@);
        assert(toks.deep_view() =~~= Seq::<Seq<u8>>::empty());
        assert(toks.deep_view() + tokens(s@) =~~= tokens(s@));
    }
    while pos < s.len()
        invariant
            pos <= s.len(),
            toks.deep_view() + tokens(s@.subrange(pos as int, s@.len() as int)) == tokens(s@),
        decreases s@.len() - pos,
    {
        let ghost rem = s@.subrange(pos as int, s@.len() as int);
        // Find the end of the current line.
        let mut j: usize = pos;
        while j < s.len() && s[j] != 10
            invariant
                pos <= j <= s.len(),
                forall|k: int| pos <= k < j ==> s@[k] != 10,
            decreases s@.len() - j,
        {
            j = j + 1;
        }
        proof {
            assert(forall|k: int| 0 <= k < j - pos ==> rem[k] != 10);
            lemma_first_newline_at(rem, j - pos);
        }
        // Trim the line in place.
        let mut lo: usize = pos;
        let mut hi: usize = j;
        while lo < hi && blank(s[lo])
            invariant
                pos <= lo <= hi <= j,
                forall|k: int| pos <= k < lo ==> is_blank(s@[k]),
            decreases hi - lo,
        {
            lo = lo + 1;
        }
        while lo < hi && blank(s[hi - 1])
            invariant
                pos <= lo <= hi <= j,
                forall|k: int| hi <= k < j ==> is_blank(s@[k]),
            decreases hi - lo,
        {
            hi = hi - 1;
        }
        let ghost line = s@.subrange(pos as int, j as int);
        proof {
            lemma_trim_range(line, lo - pos, hi - pos);
            assert(line.subrange(lo - pos, hi - pos) =~= s@.subrange(lo as int, hi as int));
        }
        // Copy the token out, if the line was not all blank.
        if lo < hi {
            let mut tok: Vec<u8> = Vec::new();
            let mut k: usize = lo;
            while k < hi
                invariant
                    lo <= k <= hi <= s@.len(),
                    tok@ == s@.subrange(lo as int, k as int),
                decreases hi - k,
            {
                tok.push(s[k]);
                k = k + 1;
                proof {
                    assert(tok@ =~= s@.subrange(lo as int, k as int));
                }
            }
            let ghost before = toks.deep_view();
            toks.push(tok);
            proof {
                assert(toks.deep_view() =~~= before.push(tok@));
            }
        }
        let ghost toks_now = toks.deep_view();
        proof {
            // One unfolding of `tokens` on the remainder starting at `pos`.
            if (j as int) < s@.len() {
                assert(rem.subrange(0, j - pos) =~= line);
                assert(rem.subrange(j - pos + 1, rem.len() as int) =~= s@.subrange(
                    j + 1,
                    s@.len() as int,
                ));
                if lo < hi {
                    assert(toks_now + tokens(s@.subrange(j + 1, s@.len() as int)) =~= tokens(s@));
                } else {
                    assert(trim(line).len() == 0);
                    assert(toks_now + tokens(s@.subrange(j + 1, s@.len() as int)) =~= tokens(s@));
                }
            } else {
                assert(rem =~= line);
                assert(tokens(s@.subrange(s@.len() as int, s@.len() as int)) =~= Seq::<
                    Seq<u8>,
                >::empty());
                assert(toks_now + tokens(s@.subrange(s@.len() as int, s@.len() as int))
                    =~= tokens(s@));
            }
        }
        if j < s.len() {
            pos = j + 1;
        } else {
            pos = s.len();
        }
    }
    proof {
        assert(s@.subrange(pos as int, s@.len() as int) =~= Seq::<u8>::empty());
        assert(toks.deep_view() + tokens(Seq::<u8>::empty()) =~= toks.deep_view());
    }
    toks
}

/// Every byte of `t` is an accepted sequence character.
pub open spec fn all_bases(t: Seq<u8>) -> bool {
    forall|k: int| 0 <= k < t.len() ==> is_base(#[trigger] t[k])
}

/// The verdict on the tokens from 0-based index `idx` on: the first bad
/// token decides, character check before length check.
pub open spec fn check_tokens(ts: Seq<Seq<u8>>, idx: nat) -> Result<(), ValidationError>
    decreases ts.len(),
{
    if ts.len() == 0 {
        Ok(())
    } else if !all_bases(ts[0]) {
        Err(ValidationError::InvalidCharacters { line: (idx + 1) as usize })
    } else if ts[0].len() != SEQUENCE_LENGTH {
        Err(
            ValidationError::WrongLength {
                line: (idx + 1) as usize,
                length: ts[0].len() as usize,
            },
        )
    } else {
        check_tokens(ts.drop_first(), idx + 1)
    }
}

/// The verdict on a whole sequence text: the count gate first, then the
/// per-token checks in order.
pub open spec fn spec_validate_seed_sequences(s: Seq<u8>) -> Result<(), ValidationError> {
    let ts = tokens(s);
    if ts.len() > MAX_SEQUENCES {
        Err(ValidationError::TooManySequences { count: ts.len() as usize })
    } else {
        check_tokens(ts, 0)
    }
}

/// Validate the seed-sequence text, reporting the first violation.
#[verifier::loop_isolation(false)]
pub fn validate_seed_sequences(s: &[u8]) -> (r: Result<(), ValidationError>)
    ensures
        r == spec_validate_seed_sequences(s@),
{
    let toks = tokenize(s);
    let ghost ts = tokens(s@);
    if toks.len() > MAX_SEQUENCES {
        return Err(ValidationError::TooManySequences { count: toks.len() });
    }
    let mut i: usize = 0;
    proof {
        assert(ts.skip(0) =~= ts);
        assert(toks@.len() == ts.len());
    }
    while i < toks.len()
        invariant
            i <= toks.len(),
            toks.deep_view() == ts,
            ts.len() <= MAX_SEQUENCES,
            check_tokens(ts, 0) == check_tokens(ts.skip(i as int), i as nat),
        decreases toks.len() - i,
    {
        let tok = &toks[i];
        let ghost suffix = ts.skip(i as int);
        proof {
            assert(ts[i as int] == toks@[i as int].deep_view());
            assert(toks@[i as int].deep_view() =~= toks@[i as int]@);
            assert(ts[i as int] == tok@);
            assert(suffix[0] == ts[i as int]);
            assert(suffix.drop_first() =~= ts.skip(i + 1));
        }
        // Character check first, as the verdict order demands.
        let mut k: usize = 0;
        while k < tok.len()
            invariant
                k <= tok@.len(),
                forall|m: int| 0 <= m < k ==> is_base(#[trigger] tok@[m]),
                i < ts.len(),
                ts[i as int] == tok@,
            decreases tok@.len() - k,
        {
            if !base(tok[k]) {
                proof {
                    assert(!all_bases(ts[i as int]));
                }
                return Err(ValidationError::InvalidCharacters { line: i + 1 });
            }
            k = k + 1;
        }
        proof {
            assert(all_bases(ts[i as int]));
        }
        if tok.len() != SEQUENCE_LENGTH {
            return Err(
                ValidationError::WrongLength { line: i + 1, length: tok.len() },
            );
        }
        i = i + 1;
    }
    proof {
        assert(ts.skip(i as int) =~= Seq::<Seq<u8>>::empty());
    }
    Ok(())
}

/// A decimal digit.
pub open spec fn is_digit(c: u8) -> bool {
    48 <= c && c <= 57
}

/// Every byte of `s` is a decimal digit.
pub open spec fn all_digits(s: Seq<u8>) -> bool {
    forall|k: int| 0 <= k < s.len() ==> is_digit(#[trigger] s[k])
}

/// The number the digit string `s` denotes.
pub open spec fn digits_value(s: Seq<u8>) -> int
    decreases s.len(),
{
    if s.len() == 0 {
        0
    } else {
        digits_value(s.drop_last()) * 10 + (s.last() - 48)
    }
}

/// For a digit string, every prefix denotes at most the whole.
pub proof fn lemma_digits_prefix_le(s: Seq<u8>, k: int)
    requires
        all_digits(s),
        0 <= k <= s.len(),
    ensures
        0 <= digits_value(s.take(k)),
        digits_value(s.take(k)) <= digits_value(s),
    decreases s.len(),
{
    if s.len() > 0 {
        assert(all_digits(s.drop_last()));
        if k == s.len() {
            assert(s.take(k) =~= s);
            lemma_digits_prefix_le(s.drop_last(), s.len() - 1);
        } else {
            assert(s.take(k) =~= s.drop_last().take(k));
            lemma_digits_prefix_le(s.drop_last(), k);
        }
    }
}

/// The digit part of a generation-count text: one leading `+` is allowed
/// and ignored.
pub open spec fn gen_num_digits(s: Seq<u8>) -> Seq<u8> {
    if s.len() > 0 && s[0] == 43 {
        s.drop_first()
    } else {
        s
    }
}

/// The verdict on a generation-count text: a decimal number (with at most
/// one leading `+`) that fits a `u32`, and then the range gate
/// [`MIN_GEN_NUM`, `MAX_GEN_NUM`].
pub open spec fn spec_validate_gen_num(s: Seq<u8>) -> Result<u32, ValidationError> {
    let ds = gen_num_digits(s);
    if ds.len() == 0 || !all_digits(ds) || digits_value(ds) > u32::MAX {
        Err(ValidationError::NotANumber)
    } else if digits_value(ds) < MIN_GEN_NUM || digits_value(ds) > MAX_GEN_NUM {
        Err(ValidationError::GenNumOutOfRange { value: digits_value(ds) as u32 })
    } else {
        Ok(digits_value(ds) as u32)
    }
}

/// Parse and validate the generation count.
#[verifier::loop_isolation(false)]
pub fn validate_gen_num(s: &[u8]) -> (r: Result<u32, ValidationError>)
    ensures
        r == spec_validate_gen_num(s@),
{
    let ghost ds = gen_num_digits(s@);
    let start: usize = if s.len() > 0 && s[0] == 43 {
        1
    } else {
        0
    };
    proof {
        assert(ds =~= s@.skip(start as int));
    }
    if s.len() == start {
        return Err(ValidationError::NotANumber);
    }
    let mut acc: u64 = 0;
    let mut i: usize = start;
    while i < s.len()
        invariant
            start <= i <= s@.len(),
            forall|k: int| 0 <= k < i - start ==> is_digit(#[trigger] ds[k]),
            acc == digits_value(ds.take(i - start)),
            acc <= u32::MAX,
        decreases s@.len() - i,
    {
        let c = s[i];
        proof {
            assert(ds[i - start] == s@[i as int]);
        }
        if c < 48 || c > 57 {
            proof {
                assert(!all_digits(ds));
            }
            return Err(ValidationError::NotANumber);
        }
        acc = acc * 10 + ((c - 48) as u64);
        proof {
            assert(ds.take(i - start + 1).drop_last() =~= ds.take(i - start));
            assert(ds.take(i - start + 1).last() == ds[i - start]);
        }
        if acc > 0xffff_ffff {
            proof {
                if all_digits(ds) {
                    lemma_digits_prefix_le(ds, i - start + 1);
                }
            }
            return Err(ValidationError::NotANumber);
        }
        i = i + 1;
    }
    proof {
        assert(ds.take(i - start) =~= ds);
    }
    let value = acc as u32;
    if value < MIN_GEN_NUM || value > MAX_GEN_NUM {
        return Err(ValidationError::GenNumOutOfRange { value });
    }
    Ok(value)
}

} // verus!
