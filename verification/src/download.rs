//! Download-filename resolution: validation of the base name, splitting it
//! into stem and extension, and the collision-avoiding candidate names that
//! are probed against the downloads directory until a free one is found.

use vstd::prelude::*;
use vstd::set_lib::lemma_len_subset;
use vstd::string::*;

use crate::errors::BridgeError;
use crate::errors::ValidationFault;
use crate::text::trim;
use crate::text::trim_spec;

verus! {

broadcast use vstd::set::group_set_axioms;

/// The decimal digit characters.
pub open spec fn digit_char(d: int) -> char {
    if d == 0 {
        '0'
    } else if d == 1 {
        '1'
    } else if d == 2 {
        '2'
    } else if d == 3 {
        '3'
    } else if d == 4 {
        '4'
    } else if d == 5 {
        '5'
    } else if d == 6 {
        '6'
    } else if d == 7 {
        '7'
    } else if d == 8 {
        '8'
    } else {
        '9'
    }
}

/// The decimal digits of a number, most significant first.
pub open spec fn dec_spec(n: nat) -> Seq<char>
    decreases n,
{
    if n < 10 {
        seq![digit_char(n as int)]
    } else {
        dec_spec(n / 10).push(digit_char((n % 10) as int))
    }
}

/// Distinct digits render as distinct characters.
proof fn lemma_digit_char_injective(a: int, b: int)
    requires
        0 <= a < 10,
        0 <= b < 10,
        digit_char(a) == digit_char(b),
    ensures
        a == b,
{
}

/// Distinct numbers render as distinct digit sequences.
proof fn lemma_dec_injective(m: nat, n: nat)
    requires
        dec_spec(m) == dec_spec(n),
    ensures
        m == n,
    decreases m,
{
    if m < 10 && n < 10 {
        assert(dec_spec(m)[0] == digit_char(m as int));
        assert(dec_spec(n)[0] == digit_char(n as int));
        lemma_digit_char_injective(m as int, n as int);
    } else if m < 10 {
        assert(dec_spec(m).len() == 1);
        assert(dec_spec(n).len() == dec_spec(n / 10).len() + 1);
        assert(dec_spec(n / 10).len() >= 1);
    } else if n < 10 {
        assert(dec_spec(n).len() == 1);
        assert(dec_spec(m).len() == dec_spec(m / 10).len() + 1);
        assert(dec_spec(m / 10).len() >= 1);
    } else {
        let dm = dec_spec(m / 10);
        let dn = dec_spec(n / 10);
        assert(dec_spec(m).last() == digit_char((m % 10) as int));
        assert(dec_spec(n).last() == digit_char((n % 10) as int));
        lemma_digit_char_injective((m % 10) as int, (n % 10) as int);
        assert(dm.push(digit_char((m % 10) as int)).drop_last() =~= dm);
        assert(dn.push(digit_char((n % 10) as int)).drop_last() =~= dn);
        assert(dm == dn);
        lemma_dec_injective(m / 10, n / 10);
    }
}

/// The string of one decimal digit.
fn digit_str(d: usize) -> (r: &'static str)
    requires
        d < 10,
    ensures
        r@ =~= seq![digit_char(d as int)],
{
    proof {
        reveal_strlit("0");
        reveal_strlit("1");
        reveal_strlit("2");
        reveal_strlit("3");
        reveal_strlit("4");
        reveal_strlit("5");
        reveal_strlit("6");
        reveal_strlit("7");
        reveal_strlit("8");
        reveal_strlit("9");
    }
    if d == 0 {
        "0"
    } else if d == 1 {
        "1"
    } else if d == 2 {
        "2"
    } else if d == 3 {
        "3"
    } else if d == 4 {
        "4"
    } else if d == 5 {
        "5"
    } else if d == 6 {
        "6"
    } else if d == 7 {
        "7"
    } else if d == 8 {
        "8"
    } else {
        "9"
    }
}

/// Renders a number in decimal.
fn usize_to_decimal(n: usize) -> (r: String)
    ensures
        r@ =~= dec_spec(n as nat),
    decreases n,
{
    if n < 10 {
        String::from_str(digit_str(n))
    } else {
        let prefix = usize_to_decimal(n / 10);
        let r = prefix.concat(digit_str(n % 10));
        proof {
            assert(dec_spec((n / 10) as nat).push(digit_char((n % 10) as int)) =~= dec_spec(
                (n / 10) as nat,
            ) + seq![digit_char((n % 10) as int)]);
        }
        r
    }
}

/// The candidate filename for one probe: `stem.ext` first, then `stem-1.ext`,
/// `stem-2.ext`, and so on.
pub open spec fn candidate_name_spec(stem: Seq<char>, ext: Seq<char>, index: nat) -> Seq<char> {
    if index == 0 {
        stem + seq!['.'] + ext
    } else {
        stem + seq!['-'] + dec_spec(index) + seq!['.'] + ext
    }
}

/// Builds the candidate filename for one probe index.
pub fn candidate_file_name(stem: &str, ext: &str, index: usize) -> (r: String)
    ensures
        r@ =~= candidate_name_spec(stem@, ext@, index as nat),
{
    proof {
        reveal_strlit(".");
        reveal_strlit("-");
        assert("."@ =~= seq!['.']);
        assert("-"@ =~= seq!['-']);
    }
    if index == 0 {
        String::from_str(stem).concat(".").concat(ext)
    } else {
        let digits = usize_to_decimal(index);
        String::from_str(stem).concat("-").concat(digits.as_str()).concat(".").concat(ext)
    }
}

/// Distinct probe indices produce distinct candidate names.
proof fn lemma_candidate_injective(stem: Seq<char>, ext: Seq<char>, i: nat, j: nat)
    requires
        i != j,
    ensures
        candidate_name_spec(stem, ext, i) != candidate_name_spec(stem, ext, j),
{
    let ci = candidate_name_spec(stem, ext, i);
    let cj = candidate_name_spec(stem, ext, j);
    if ci == cj {
        if i == 0 || j == 0 {
            // one name has no digit block: the lengths differ
            assert(dec_spec(if i == 0 { j } else { i }).len() >= 1);
            assert(ci.len() != cj.len());
        } else {
            let di = dec_spec(i);
            let dj = dec_spec(j);
            assert(ci.len() == stem.len() + 1 + di.len() + 1 + ext.len());
            assert(cj.len() == stem.len() + 1 + dj.len() + 1 + ext.len());
            assert(di.len() == dj.len());
            let offset = stem.len() as int + 1;
            assert(ci.subrange(offset, offset + di.len() as int) =~= di);
            assert(cj.subrange(offset, offset + dj.len() as int) =~= dj);
            lemma_dec_injective(i, j);
        }
    }
}

/// The index of the last dot in the name, or -1 when there is none.
pub open spec fn last_dot_spec(s: Seq<char>) -> int
    decreases s.len(),
{
    if s.len() == 0 {
        -1
    } else if s[s.len() - 1] == '.' {
        s.len() - 1
    } else {
        last_dot_spec(s.take(s.len() - 1))
    }
}

/// The stem of a single-segment filename: what precedes the final dot, or
/// the whole name when there is no dot or only a leading one.
pub open spec fn stem_spec(s: Seq<char>) -> Seq<char> {
    if last_dot_spec(s) > 0 {
        s.take(last_dot_spec(s))
    } else {
        s
    }
}

/// The raw extension: what follows the final dot, or nothing.
pub open spec fn raw_ext_spec(s: Seq<char>) -> Seq<char> {
    if last_dot_spec(s) > 0 {
        s.skip(last_dot_spec(s) + 1)
    } else {
        Seq::empty()
    }
}

/// The effective extension: a missing or whitespace-only one defaults to
/// `csv`.
pub open spec fn ext_spec(s: Seq<char>) -> Seq<char> {
    if trim_spec(raw_ext_spec(s)).len() == 0 {
        "csv"@
    } else {
        raw_ext_spec(s)
    }
}

/// Whether the name is one of the relative-walk segments `.` or `..`, which
/// carry no filename at all.
pub open spec fn is_dot_segment(s: Seq<char>) -> bool {
    s =~= seq!['.'] || s =~= seq!['.', '.']
}

/// Why a base name is rejected, if it is: empty or whitespace-only names,
/// names with directory separators (absolute paths included), and names
/// without a usable stem.
pub open spec fn base_name_fault(s: Seq<char>) -> Option<ValidationFault> {
    if trim_spec(s).len() == 0 {
        Option::Some(ValidationFault::EmptyName)
    } else if s.contains('/') {
        Option::Some(ValidationFault::DirectorySegments)
    } else if is_dot_segment(s) || trim_spec(stem_spec(s)).len() == 0 {
        Option::Some(ValidationFault::InvalidStem)
    } else {
        Option::None
    }
}

/// Finds the last dot of the name.
fn find_last_dot(s: &str) -> (r: Option<usize>)
    ensures
        match r {
            Option::Some(p) => p == last_dot_spec(s@) && p < s@.len(),
            Option::None => last_dot_spec(s@) == -1,
        },
{
    let n = s.unicode_len();
    let mut j: usize = n;
    proof {
        assert(s@.take(n as int) =~= s@);
    }
    while j > 0
        invariant
            n == s@.len(),
            j <= n,
            last_dot_spec(s@) == last_dot_spec(s@.take(j as int)),
        decreases j,
    {
        if s.get_char(j - 1) == '.' {
            proof {
                assert(s@.take(j as int).len() == j);
                assert(s@.take(j as int)[j - 1] == '.');
            }
            return Option::Some(j - 1);
        }
        proof {
            assert(s@.take(j as int)[j - 1] != '.');
            assert(s@.take(j as int).take(j - 1) =~= s@.take(j - 1));
        }
        j = j - 1;
    }
    proof {
        assert(s@.take(0) =~= Seq::<char>::empty());
    }
    Option::None
}

/// Whether the name contains a directory separator.
fn contains_separator(s: &str) -> (r: bool)
    ensures
        r == s@.contains('/'),
{
    let n = s.unicode_len();
    let mut j: usize = 0;
    while j < n
        invariant
            n == s@.len(),
            j <= n,
            forall|k: int| 0 <= k < j ==> s@[k] != '/',
        decreases n - j,
    {
        if s.get_char(j) == '/' {
            return true;
        }
        j = j + 1;
    }
    proof {
        if s@.contains('/') {
            let w = choose|w: int| 0 <= w < s@.len() && s@[w] == '/';
            assert(false);
        }
    }
    false
}

/// Validates a base name and splits it into its stem and its effective
/// extension; rejected names report exactly why.
pub fn split_base_name(base: &str) -> (r: Result<(String, String), BridgeError>)
    ensures
        match base_name_fault(base@) {
            Option::Some(fault) => r == Result::<(String, String), BridgeError>::Err(
                BridgeError::Validation(fault),
            ),
            Option::None => r matches Result::Ok((stem, ext)) && stem@ == stem_spec(base@) && ext@
                == ext_spec(base@),
        },
{
    let trimmed = trim(base);
    if trimmed.as_str().unicode_len() == 0 {
        return Result::Err(BridgeError::Validation(ValidationFault::EmptyName));
    }
    if contains_separator(base) {
        return Result::Err(BridgeError::Validation(ValidationFault::DirectorySegments));
    }
    let n = base.unicode_len();
    let dot_segment: bool = if n == 1 {
        base.get_char(0) == '.'
    } else if n == 2 {
        base.get_char(0) == '.' && base.get_char(1) == '.'
    } else {
        false
    };
    proof {
        if dot_segment {
            if n == 1 {
                assert(base@ =~= seq!['.']);
            } else {
                assert(base@ =~= seq!['.', '.']);
            }
        } else {
            assert(!is_dot_segment(base@)) by {
                if base@ =~= seq!['.'] {
                    assert(base@[0] == '.' && base@.len() == 1);
                }
                if base@ =~= seq!['.', '.'] {
                    assert(base@[0] == '.' && base@[1] == '.' && base@.len() == 2);
                }
            }
        }
    }
    if dot_segment {
        return Result::Err(BridgeError::Validation(ValidationFault::InvalidStem));
    }
    let (stem, raw_ext) = match find_last_dot(base) {
        Option::Some(p) if p > 0 => {
            (
                String::from_str(base.substring_char(0, p)),
                String::from_str(base.substring_char(p + 1, n)),
            )
        },
        _ => (String::from_str(base), String::new()),
    };
    proof {
        assert(stem@ == stem_spec(base@));
        assert(raw_ext@ == raw_ext_spec(base@));
    }
    let stem_trimmed = trim(stem.as_str());
    if stem_trimmed.as_str().unicode_len() == 0 {
        return Result::Err(BridgeError::Validation(ValidationFault::InvalidStem));
    }
    let ext_trimmed = trim(raw_ext.as_str());
    if ext_trimmed.as_str().unicode_len() == 0 {
        Result::Ok((stem, String::from_str("csv")))
    } else {
        Result::Ok((stem, raw_ext))
    }
}

/// Whether the index is the first whose candidate name is not taken.
pub open spec fn first_free_index(
    stem: Seq<char>,
    ext: Seq<char>,
    taken: Seq<Seq<char>>,
    i: int,
) -> bool {
    &&& 0 <= i
    &&& !taken.contains(candidate_name_spec(stem, ext, i as nat))
    &&& forall|j: int|
        0 <= j < i ==> #[trigger] taken.contains(candidate_name_spec(stem, ext, j as nat))
}

/// Among any `n` taken names, one of the first `n + 1` candidates is free.
proof fn lemma_candidate_pigeonhole(stem: Seq<char>, ext: Seq<char>, taken: Seq<Seq<char>>)
    ensures
        exists|i: int|
            0 <= i <= taken.len() && !#[trigger] taken.contains(
                candidate_name_spec(stem, ext, i as nat),
            ),
{
    if forall|i: int|
        0 <= i <= taken.len() ==> #[trigger] taken.contains(candidate_name_spec(stem, ext, i as nat)) {
        let cands = Seq::new(taken.len() + 1, |i: int| candidate_name_spec(stem, ext, i as nat));
        assert forall|p: int, q: int|
            0 <= p < cands.len() && 0 <= q < cands.len() && p != q implies cands[p] != cands[q] by {
            lemma_candidate_injective(stem, ext, p as nat, q as nat);
        }
        assert(cands.no_duplicates());
        cands.unique_seq_to_set();
        taken.lemma_cardinality_of_set();
        assert forall|x: Seq<char>| cands.to_set().contains(x) implies taken.to_set().contains(
            x,
        ) by {
            let w = choose|w: int| 0 <= w < cands.len() && cands[w] == x;
            assert(taken.contains(cands[w]));
        }
        lemma_len_subset(cands.to_set(), taken.to_set());
        assert(false);
    }
}

/// Whether the list of taken names holds this one.
fn is_taken(existing: &Vec<String>, name: &String) -> (r: bool)
    ensures
        r == crate::enumerate::views_of(existing@).contains(name@),
{
    let n = existing.len();
    let mut j: usize = 0;
    while j < n
        invariant
            n == existing.len(),
            j <= n,
            forall|k: int| 0 <= k < j ==> crate::enumerate::views_of(existing@)[k] != name@,
        decreases n - j,
    {
        if existing[j] == *name {
            proof {
                assert(crate::enumerate::views_of(existing@)[j as int] == name@);
            }
            return true;
        }
        j = j + 1;
    }
    proof {
        let views = crate::enumerate::views_of(existing@);
        if views.contains(name@) {
            let w = choose|w: int| 0 <= w < views.len() && views[w] == name@;
            assert(false);
        }
    }
    false
}

/// Resolves a download filename against the names already taken: validates
/// the base name, then probes `stem.ext`, `stem-1.ext`, `stem-2.ext`, … and
/// returns the first candidate not yet taken. A free candidate always exists
/// among the first `existing.len() + 1`.
pub fn resolve_file_name(base: &str, existing: &Vec<String>) -> (r: Result<String, BridgeError>)
    requires
        existing@.len() < usize::MAX,
    ensures
        match base_name_fault(base@) {
            Option::Some(fault) => r == Result::<String, BridgeError>::Err(
                BridgeError::Validation(fault),
            ),
            Option::None => r matches Result::Ok(name) && exists|i: int|
                first_free_index(
                    stem_spec(base@),
                    ext_spec(base@),
                    crate::enumerate::views_of(existing@),
                    i,
                ) && name@ == candidate_name_spec(stem_spec(base@), ext_spec(base@), i as nat),
        },
{
    let (stem, ext) = match split_base_name(base) {
        Result::Ok(parts) => parts,
        Result::Err(e) => {
            return Result::Err(e);
        },
    };
    let ghost taken = crate::enumerate::views_of(existing@);
    let n = existing.len();
    let mut i: usize = 0;
    while i <= n
        invariant
            n == existing@.len(),
            n < usize::MAX,
            i <= n + 1,
            stem@ == stem_spec(base@),
            ext@ == ext_spec(base@),
            taken == crate::enumerate::views_of(existing@),
            base_name_fault(base@) is None,
            forall|j: int|
                0 <= j < i ==> #[trigger] taken.contains(
                    candidate_name_spec(stem@, ext@, j as nat),
                ),
        decreases n + 1 - i,
    {
        let candidate = candidate_file_name(stem.as_str(), ext.as_str(), i);
        if !is_taken(existing, &candidate) {
            proof {
                assert(first_free_index(stem_spec(base@), ext_spec(base@), taken, i as int));
            }
            return Result::Ok(candidate);
        }
        i = i + 1;
    }
    proof {
        lemma_candidate_pigeonhole(stem@, ext@, taken);
        assert(false);
    }
    vstd::pervasive::unreached()
}

} // verus!
