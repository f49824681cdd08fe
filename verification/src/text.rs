//! Character-level string operations used by the parsers, with their
//! specifications over `Seq<char>`.
use vstd::prelude::*;

verus! {

/// The views of a sequence of strings.
pub open spec fn strings_view(v: Seq<String>) -> Seq<Seq<char>> {
    v.map_values(|s: String| s@)
}

/// The characters of `s`, in order.
pub fn chars_of(s: &str) -> (v: Vec<char>)
    ensures
        v@ == s@,
{
    broadcast use vstd::string::group_string_axioms;

    let mut v: Vec<char> = Vec::new();
    for c in it: s.chars()
        invariant
            v@ == it.seq().take(it.index() as int),
            it.seq() == s@,
    {
        v.push(c);
    }
    v
}

/// A string holding the characters of `v`, by std's `FromIterator<&char>`
/// for `String` (`collect`).
///
/// Trusted: the contract claims that `collect` appends each character in
/// turn, so that the string holds exactly the characters of `v`, in order.
#[verifier::external_body]
pub(crate) fn string_from_chars(v: &[char]) -> (s: String)
    ensures
        s@ == v@,
{
    v.iter().collect()
}

/// The text that the bytes encode in UTF-8, if they are valid UTF-8
/// (std's `str::from_utf8`).
///
/// Trusted: the contract claims that `from_utf8` succeeds exactly on valid
/// UTF-8 and then yields the characters the bytes encode, as its
/// documentation says.
#[verifier::external_body]
pub(crate) fn utf8_to_string(bytes: &[u8]) -> (r: Option<String>)
    ensures
        r is Some <==> vstd::utf8::valid_utf8(bytes@),
        r matches Some(s) ==> s@ == vstd::utf8::decode_utf8(bytes@),
{
    match std::str::from_utf8(bytes) {
        Ok(s) => Some(s.to_string()),
        Err(_) => None,
    }
}

/// A copy of `s`.
pub fn copy_string(s: &String) -> (r: String)
    ensures
        r@ == s@,
{
    s.as_str().to_owned()
}

/// A copy of each string of `v`.
pub fn copy_strings(v: &Vec<String>) -> (r: Vec<String>)
    ensures
        strings_view(r@) == strings_view(v@),
{
    let mut r: Vec<String> = Vec::new();
    let mut i: usize = 0;
    while i < v.len()
        invariant
            i <= v.len(),
            r@.len() == i,
            forall|j: int| 0 <= j < i ==> #[trigger] r@[j]@ == v@[j]@,
        decreases v.len() - i,
    {
        r.push(copy_string(&v[i]));
        i = i + 1;
    }
    assert(strings_view(r@) =~= strings_view(v@));
    r
}

/// Two strings hold the same characters.
pub fn same_text(a: &str, b: &str) -> (r: bool)
    ensures
        r == (a@ == b@),
{
    let x = a.to_owned();
    let y = b.to_owned();
    x == y
}

// ---------------------------------------------------------------------------
// Searching and replacing
// ---------------------------------------------------------------------------
/// `pat` occurs in `s` at position `i`.
pub open spec fn occurs_at(s: Seq<char>, pat: Seq<char>, i: int) -> bool {
    0 <= i && i + pat.len() <= s.len() && s.subrange(i, i + pat.len()) == pat
}

/// `pat` occurs somewhere in `s` (std's `str::contains` with a string pattern).
pub open spec fn seq_contains(s: Seq<char>, pat: Seq<char>) -> bool {
    exists|i: int| occurs_at(s, pat, i)
}

/// Every non-overlapping occurrence of the non-empty `pat` in `s`, found from
/// left to right, replaced by `rep` (std's `str::replace`).
pub open spec fn replace_all(s: Seq<char>, pat: Seq<char>, rep: Seq<char>) -> Seq<char>
    decreases s.len(),
{
    if pat.len() == 0 || s.len() < pat.len() {
        s
    } else if s.subrange(0, pat.len() as int) == pat {
        rep + replace_all(s.subrange(pat.len() as int, s.len() as int), pat, rep)
    } else {
        seq![s[0]] + replace_all(s.subrange(1, s.len() as int), pat, rep)
    }
}

fn occurs_at_exec(s: &[char], pat: &[char], i: usize) -> (r: bool)
    requires
        i <= s@.len(),
    ensures
        r == occurs_at(s@, pat@, i as int),
{
    let slen = s.len();
    if pat.len() > slen - i {
        return false;
    }
    let mut j: usize = 0;
    while j < pat.len()
        invariant
            slen == s@.len(),
            i + pat@.len() <= slen,
            j <= pat@.len(),
            forall|k: int| 0 <= k < j ==> s@[i + k] == pat@[k],
        decreases pat.len() - j,
    {
        if s[i + j] != pat[j] {
            assert(s@.subrange(i as int, i + pat@.len())[j as int] != pat@[j as int]);
            return false;
        }
        j = j + 1;
    }
    assert(s@.subrange(i as int, i + pat@.len()) =~= pat@);
    true
}

/// Whether `pat` occurs in `s`.
pub fn contains_chars(s: &[char], pat: &[char]) -> (r: bool)
    ensures
        r == seq_contains(s@, pat@),
{
    if pat.len() == 0 {
        assert(s@.subrange(0, 0) =~= pat@);
        assert(occurs_at(s@, pat@, 0));
        return true;
    }
    let mut i: usize = 0;
    while i < s.len()
        invariant
            i <= s@.len(),
            forall|k: int| 0 <= k < i ==> !occurs_at(s@, pat@, k),
        decreases s.len() - i,
    {
        if occurs_at_exec(s, pat, i) {
            return true;
        }
        i = i + 1;
    }
    false
}

proof fn lemma_replace_all_unfold(s: Seq<char>, pat: Seq<char>, rep: Seq<char>, i: int)
    requires
        0 <= i <= s.len(),
        pat.len() > 0,
    ensures
        i + pat.len() > s.len() ==> replace_all(s.subrange(i, s.len() as int), pat, rep) == s.subrange(i, s.len() as int),
        i + pat.len() <= s.len() && occurs_at(s, pat, i) ==> replace_all(s.subrange(i, s.len() as int), pat, rep)
            == rep + replace_all(s.subrange(i + pat.len(), s.len() as int), pat, rep),
        i + pat.len() <= s.len() && !occurs_at(s, pat, i) ==> replace_all(s.subrange(i, s.len() as int), pat, rep)
            == seq![s[i]] + replace_all(s.subrange(i + 1, s.len() as int), pat, rep),
{
    let t = s.subrange(i, s.len() as int);
    if i + pat.len() <= s.len() {
        assert(t.subrange(0, pat.len() as int) =~= s.subrange(i, i + pat.len()));
        assert(t.subrange(pat.len() as int, t.len() as int) =~= s.subrange(i + pat.len(), s.len() as int));
        assert(t.subrange(1, t.len() as int) =~= s.subrange(i + 1, s.len() as int));
    }
}

/// `s` with every non-overlapping occurrence of `pat` replaced by `rep`.
pub fn replace_chars(s: &[char], pat: &[char], rep: &[char]) -> (r: Vec<char>)
    requires
        pat@.len() > 0,
    ensures
        r@ == replace_all(s@, pat@, rep@),
{
    let mut r: Vec<char> = Vec::new();
    let mut i: usize = 0;
    assert(s@.subrange(0, s@.len() as int) =~= s@);
    while i < s.len()
        invariant
            i <= s@.len(),
            pat@.len() > 0,
            r@ + replace_all(s@.subrange(i as int, s@.len() as int), pat@, rep@) == replace_all(s@, pat@, rep@),
        decreases s.len() - i,
    {
        proof {
            lemma_replace_all_unfold(s@, pat@, rep@, i as int);
        }
        if pat.len() > s.len() - i {
            let ghost old_r = r@;
            let ghost i0 = i as int;
            while i < s.len()
                invariant
                    i0 <= i <= s@.len(),
                    r@ + s@.subrange(i as int, s@.len() as int) == old_r + s@.subrange(i0, s@.len() as int),
                decreases s.len() - i,
            {
                assert(s@.subrange(i as int, s@.len() as int) =~= seq![s@[i as int]] + s@.subrange(i + 1, s@.len() as int));
                r.push(s[i]);
                i = i + 1;
                assert(r@ + s@.subrange(i as int, s@.len() as int) =~= old_r + s@.subrange(i0, s@.len() as int));
            }
            assert(s@.subrange(i as int, s@.len() as int) =~= Seq::<char>::empty());
            assert(r@ =~= r@ + s@.subrange(i as int, s@.len() as int));
            assert(replace_all(s@.subrange(i as int, s@.len() as int), pat@, rep@) =~= Seq::<char>::empty());
            assert(r@ + replace_all(s@.subrange(i as int, s@.len() as int), pat@, rep@) =~= r@);
        } else if occurs_at_exec(s, pat, i) {
            let ghost old_r = r@;
            let mut k: usize = 0;
            while k < rep.len()
                invariant
                    k <= rep@.len(),
                    r@ == old_r + rep@.subrange(0, k as int),
                decreases rep.len() - k,
            {
                r.push(rep[k]);
                k = k + 1;
                assert(r@ =~= old_r + rep@.subrange(0, k as int));
            }
            assert(rep@.subrange(0, rep@.len() as int) =~= rep@);
            i = i + pat.len();
            assert(r@ + replace_all(s@.subrange(i as int, s@.len() as int), pat@, rep@) =~= old_r + (rep@ + replace_all(s@.subrange(i as int, s@.len() as int), pat@, rep@)));
        } else {
            let ghost old_r = r@;
            r.push(s[i]);
            i = i + 1;
            assert(r@ + replace_all(s@.subrange(i as int, s@.len() as int), pat@, rep@) =~= old_r + (seq![s@[i - 1]] + replace_all(s@.subrange(i as int, s@.len() as int), pat@, rep@)));
        }
    }
    assert(s@.subrange(i as int, s@.len() as int) =~= Seq::<char>::empty());
    assert(replace_all(Seq::<char>::empty(), pat@, rep@) == Seq::<char>::empty());
    assert(r@ + Seq::<char>::empty() =~= r@);
    r
}

// ---------------------------------------------------------------------------
// Whitespace splitting and joining
// ---------------------------------------------------------------------------
/// The Unicode `White_Space` property (std's `char::is_whitespace`).
pub open spec fn is_whitespace_spec(c: char) -> bool {
    let u = c as u32;
    ||| 0x09 <= u <= 0x0d
    ||| u == 0x20
    ||| u == 0x85
    ||| u == 0xa0
    ||| u == 0x1680
    ||| 0x2000 <= u <= 0x200a
    ||| u == 0x2028
    ||| u == 0x2029
    ||| u == 0x202f
    ||| u == 0x205f
    ||| u == 0x3000
}

/// Whether `c` is a whitespace character.
pub fn is_whitespace(c: char) -> (r: bool)
    ensures
        r == is_whitespace_spec(c),
{
    let u = c as u32;
    (0x09 <= u && u <= 0x0d) || u == 0x20 || u == 0x85 || u == 0xa0 || u == 0x1680 || (0x2000
        <= u && u <= 0x200a) || u == 0x2028 || u == 0x2029 || u == 0x202f || u == 0x205f || u
        == 0x3000
}

/// The words of `s` that follow a partial word `cur`: the maximal runs of
/// non-whitespace characters, in order.
pub open spec fn words_from(s: Seq<char>, cur: Seq<char>) -> Seq<Seq<char>>
    decreases s.len(),
{
    if s.len() == 0 {
        if cur.len() == 0 {
            seq![]
        } else {
            seq![cur]
        }
    } else if is_whitespace_spec(s[0]) {
        if cur.len() == 0 {
            words_from(s.subrange(1, s.len() as int), seq![])
        } else {
            seq![cur] + words_from(s.subrange(1, s.len() as int), seq![])
        }
    } else {
        words_from(s.subrange(1, s.len() as int), cur.push(s[0]))
    }
}

/// The words of `s`, separated by whitespace (std's `str::split_whitespace`).
pub open spec fn split_whitespace_spec(s: Seq<char>) -> Seq<Seq<char>> {
    words_from(s, seq![])
}

/// The whitespace-separated words of `s`.
pub fn split_whitespace(s: &str) -> (r: Vec<String>)
    ensures
        strings_view(r@) == split_whitespace_spec(s@),
{
    let cs = chars_of(s);
    let mut r: Vec<String> = Vec::new();
    let mut cur: Vec<char> = Vec::new();
    let mut i: usize = 0;
    assert(cs@.subrange(0, cs@.len() as int) =~= cs@);
    while i < cs.len()
        invariant
            i <= cs@.len(),
            cs@ == s@,
            strings_view(r@) + words_from(cs@.subrange(i as int, cs@.len() as int), cur@)
                == split_whitespace_spec(s@),
        decreases cs.len() - i,
    {
        let ghost rest = cs@.subrange(i as int, cs@.len() as int);
        assert(rest.subrange(1, rest.len() as int) =~= cs@.subrange(i + 1, cs@.len() as int));
        let c = cs[i];
        assert(rest[0] == c);
        if is_whitespace(c) {
            if cur.len() > 0 {
                let ghost old_r = strings_view(r@);
                let ghost old_cur = cur@;
                let w = string_from_chars(cur.as_slice());
                r.push(w);
                assert(strings_view(r@) =~= old_r + seq![old_cur]);
                cur = Vec::new();
                assert(cur@ =~= Seq::<char>::empty());
                assert(strings_view(r@) + words_from(cs@.subrange(i + 1, cs@.len() as int), cur@)
                    =~= old_r + (seq![old_cur] + words_from(cs@.subrange(i + 1, cs@.len() as int), seq![])));
                assert(words_from(rest, old_cur) == seq![old_cur] + words_from(cs@.subrange(i + 1, cs@.len() as int), seq![]));
            } else {
                assert(cur@ =~= Seq::<char>::empty());
                assert(words_from(rest, cur@) == words_from(cs@.subrange(i + 1, cs@.len() as int), cur@));
            }
        } else {
            let ghost old_cur = cur@;
            cur.push(c);
            assert(words_from(rest, old_cur) == words_from(cs@.subrange(i + 1, cs@.len() as int), cur@));
        }
        i = i + 1;
    }
    assert(cs@.subrange(i as int, cs@.len() as int) =~= Seq::<char>::empty());
    if cur.len() > 0 {
        let ghost old_r = strings_view(r@);
        let w = string_from_chars(cur.as_slice());
        r.push(w);
        assert(strings_view(r@) =~= old_r + seq![cur@]);
    } else {
        assert(strings_view(r@) + Seq::<Seq<char>>::empty() =~= strings_view(r@));
    }
    r
}

/// The characters with the Unicode `White_Space` property, as Unicode's
/// PropList lists them: U+0009 to U+000D (tab, line feed, line tabulation,
/// form feed, carriage return), space, next line, no-break space, ogham
/// space mark, U+2000 to U+200A, line and paragraph separators, narrow
/// no-break space, medium mathematical space and ideographic space.
pub open spec fn unicode_white_space(c: char) -> bool {
    let u = c as u32;
    ||| u == 0x09 || u == 0x0a || u == 0x0b || u == 0x0c || u == 0x0d
    ||| u == 0x20 || u == 0x85 || u == 0xa0 || u == 0x1680
    ||| 0x2000 <= u <= 0x200a
    ||| u == 0x2028 || u == 0x2029 || u == 0x202f || u == 0x205f || u == 0x3000
}

/// The characters of `s` that are not white space, in order.
pub open spec fn non_white_text(s: Seq<char>) -> Seq<char>
    decreases s.len(),
{
    if s.len() == 0 {
        Seq::empty()
    } else if unicode_white_space(s[0]) {
        non_white_text(s.subrange(1, s.len() as int))
    } else {
        seq![s[0]] + non_white_text(s.subrange(1, s.len() as int))
    }
}

proof fn lemma_words_from_laws(s: Seq<char>, cur: Seq<char>)
    requires
        forall|j: int| 0 <= j < cur.len() ==> !unicode_white_space(#[trigger] cur[j]),
    ensures
        words_from(s, cur).flatten() == cur + non_white_text(s),
        forall|i: int| 0 <= i < words_from(s, cur).len() ==> (#[trigger] words_from(s, cur)[i]).len() > 0,
        forall|i: int, j: int|
            0 <= i < words_from(s, cur).len() && 0 <= j < words_from(s, cur)[i].len()
                ==> !unicode_white_space(#[trigger] words_from(s, cur)[i][j]),
    decreases s.len(),
{
    let rest = s.subrange(1, s.len() as int);
    if s.len() == 0 {
        if cur.len() == 0 {
            assert(cur + non_white_text(s) =~= Seq::<char>::empty());
        } else {
            seq![cur].lemma_flatten_one_element();
            assert(cur + non_white_text(s) =~= cur);
        }
    } else if is_whitespace_spec(s[0]) {
        lemma_words_from_laws(rest, seq![]);
        assert(unicode_white_space(s[0]));
        if cur.len() == 0 {
            assert(cur + non_white_text(s) =~= Seq::<char>::empty() + non_white_text(rest));
        } else {
            let ws = words_from(rest, seq![]);
            vstd::seq_lib::lemma_flatten_concat(seq![cur], ws);
            seq![cur].lemma_flatten_one_element();
            assert(cur + non_white_text(s) =~= cur + (Seq::<char>::empty() + non_white_text(rest)));
            assert forall|i: int| 0 <= i < words_from(s, cur).len() implies (#[trigger] words_from(
                s,
                cur,
            )[i]).len() > 0 by {
                if i > 0 {
                    assert(words_from(s, cur)[i] == ws[i - 1]);
                }
            }
            assert forall|i: int, j: int|
                0 <= i < words_from(s, cur).len() && 0 <= j < words_from(s, cur)[i].len()
                    implies !unicode_white_space(#[trigger] words_from(s, cur)[i][j]) by {
                if i > 0 {
                    assert(words_from(s, cur)[i] == ws[i - 1]);
                }
            }
        }
    } else {
        let next = cur.push(s[0]);
        assert(!unicode_white_space(s[0]));
        assert forall|j: int| 0 <= j < next.len() implies !unicode_white_space(#[trigger] next[j]) by {
            if j < cur.len() {
                assert(next[j] == cur[j]);
            }
        }
        lemma_words_from_laws(rest, next);
        assert(cur + non_white_text(s) =~= next + non_white_text(rest));
    }
}

/// The words of a line are as std's `str::split_whitespace` gives them:
/// none is empty, none holds a character with the Unicode `White_Space`
/// property (a carriage return among them), and together, in order, they
/// hold every other character of the line.
pub proof fn words_are_the_non_white_space_runs(s: Seq<char>)
    ensures
        split_whitespace_spec(s).flatten() == non_white_text(s),
        forall|i: int| 0 <= i < split_whitespace_spec(s).len() ==> (#[trigger] split_whitespace_spec(s)[i]).len() > 0,
        forall|i: int, j: int|
            0 <= i < split_whitespace_spec(s).len() && 0 <= j < split_whitespace_spec(s)[i].len()
                ==> !unicode_white_space(#[trigger] split_whitespace_spec(s)[i][j]),
{
    lemma_words_from_laws(s, seq![]);
    assert(Seq::<char>::empty() + non_white_text(s) =~= non_white_text(s));
}

/// The strings of `ws` joined with `sep` between each two (std's `join`).
pub open spec fn join_spec(ws: Seq<Seq<char>>, sep: Seq<char>) -> Seq<char>
    decreases ws.len(),
{
    if ws.len() == 0 {
        seq![]
    } else if ws.len() == 1 {
        ws[0]
    } else {
        join_spec(ws.drop_last(), sep) + sep + ws.last()
    }
}

/// The strings of `ws` joined with `sep` between each two.
pub fn join(ws: &Vec<String>, sep: &str) -> (r: String)
    ensures
        r@ == join_spec(strings_view(ws@), sep@),
{
    let mut r = String::new();
    let ghost all = strings_view(ws@);
    let mut i: usize = 0;
    while i < ws.len()
        invariant
            i <= ws@.len(),
            all == strings_view(ws@),
            r@ == join_spec(all.take(i as int), sep@),
        decreases ws.len() - i,
    {
        assert(all.take(i + 1).drop_last() =~= all.take(i as int));
        if i > 0 {
            r.append(sep);
        }
        r.append(ws[i].as_str());
        assert(r@ =~= join_spec(all.take(i + 1), sep@)) by {
            if i == 0 {
                assert(r@ =~= Seq::<char>::empty() + all[0]);
            }
        };
        i = i + 1;
    }
    assert(all.take(ws@.len() as int) =~= all);
    r
}

/// The concatenation of two sequences of strings, copied.
pub fn concat_strings(a: &Vec<String>, b: &Vec<String>) -> (r: Vec<String>)
    ensures
        strings_view(r@) == strings_view(a@) + strings_view(b@),
{
    let mut r = copy_strings(a);
    let mut i: usize = 0;
    while i < b.len()
        invariant
            i <= b@.len(),
            strings_view(r@) == strings_view(a@) + strings_view(b@).take(i as int),
        decreases b.len() - i,
    {
        let ghost before = strings_view(r@);
        r.push(copy_string(&b[i]));
        assert(strings_view(r@) =~= before.push(b@[i as int]@));
        assert(strings_view(b@).take(i + 1) =~= strings_view(b@).take(i as int).push(b@[i as int]@));
        i = i + 1;
    }
    assert(strings_view(b@).take(b@.len() as int) =~= strings_view(b@));
    r
}

// ---------------------------------------------------------------------------
// Decimal numbers
// ---------------------------------------------------------------------------
/// The character of the decimal digit `d`.
pub open spec fn digit_char(d: nat) -> char {
    (48 + d) as char
}

/// The decimal representation of `n`, without leading zeros.
pub open spec fn decimal(n: nat) -> Seq<char>
    decreases n,
{
    if n < 10 {
        seq![digit_char(n)]
    } else {
        decimal(n / 10).push(digit_char(n % 10))
    }
}

fn digit(d: u64) -> (c: char)
    requires
        d < 10,
    ensures
        c == digit_char(d as nat),
{
    match d {
        0 => '0',
        1 => '1',
        2 => '2',
        3 => '3',
        4 => '4',
        5 => '5',
        6 => '6',
        7 => '7',
        8 => '8',
        _ => '9',
    }
}

fn push_decimal(n: u64, out: &mut Vec<char>)
    ensures
        final(out)@ == old(out)@ + decimal(n as nat),
    decreases n,
{
    if n < 10 {
        out.push(digit(n));
    } else {
        push_decimal(n / 10, out);
        out.push(digit(n % 10));
    }
}

/// `c` is a decimal digit.
pub open spec fn is_digit(c: char) -> bool {
    '0' <= c <= '9'
}

/// The number that the decimal digits `ds` stand for.
pub open spec fn digits_value(ds: Seq<char>) -> nat
    decreases ds.len(),
{
    if ds.len() == 0 {
        0
    } else {
        digits_value(ds.drop_last()) * 10 + ((ds.last() as u32) - 48) as nat
    }
}

/// The digits of a number text: after an optional `+`.
pub open spec fn number_digits(s: Seq<char>) -> Seq<char> {
    if s.len() > 0 && s[0] == '+' {
        s.subrange(1, s.len() as int)
    } else {
        s
    }
}

/// The number that `s` denotes as an unsigned integer (std's `FromStr`
/// for `usize`): an optional `+` and at least one decimal digit, with a
/// value that fits in a `usize`.
pub open spec fn parse_usize_spec(s: Seq<char>) -> Option<usize> {
    let ds = number_digits(s);
    if ds.len() > 0 && (forall|i: int| 0 <= i < ds.len() ==> is_digit(#[trigger] ds[i]))
        && digits_value(ds) <= usize::MAX {
        Some(digits_value(ds) as usize)
    } else {
        None
    }
}

proof fn lemma_digits_value_grows(ds: Seq<char>, k: int)
    requires
        0 <= k <= ds.len(),
        forall|i: int| 0 <= i < ds.len() ==> is_digit(#[trigger] ds[i]),
    ensures
        digits_value(ds.take(k)) <= digits_value(ds),
    decreases ds.len() - k,
{
    if k < ds.len() {
        lemma_digits_value_grows(ds, k + 1);
        assert(ds.take(k + 1).drop_last() =~= ds.take(k));
    } else {
        assert(ds.take(k) =~= ds);
    }
}

/// The unsigned integer that `s` denotes, if any.
pub fn parse_usize(s: &str) -> (r: Option<usize>)
    ensures
        r == parse_usize_spec(s@),
{
    let cs = chars_of(s);
    let mut i: usize = 0;
    if cs.len() > 0 && cs[0] == '+' {
        i = 1;
    }
    let ghost ds = number_digits(s@);
    assert(ds =~= cs@.subrange(i as int, cs@.len() as int));
    if i == cs.len() {
        return None;
    }
    let start = i;
    let mut value: usize = 0;
    while i < cs.len()
        invariant
            start <= i <= cs@.len(),
            start < cs@.len(),
            ds == number_digits(s@),
            ds =~= cs@.subrange(start as int, cs@.len() as int),
            forall|j: int| 0 <= j < i - start ==> is_digit(#[trigger] ds[j]),
            value == digits_value(ds.take(i - start)),
        decreases cs.len() - i,
    {
        let c = cs[i];
        assert(c == ds[i - start]);
        if !('0' <= c && c <= '9') {
            assert(!is_digit(ds[i - start]));
            return None;
        }
        let d = (c as u32 - 48) as usize;
        assert(ds.take(i - start + 1).drop_last() =~= ds.take(i - start));
        let ghost next = digits_value(ds.take(i - start + 1));
        assert(next == value * 10 + d);
        match value.checked_mul(10) {
            None => {
                proof {
                    assert(next > usize::MAX);
                    lemma_not_all_digits_or_too_large(ds, (i - start + 1) as int);
                }
                return None;
            },
            Some(v) => match v.checked_add(d) {
                None => {
                    proof {
                        assert(next > usize::MAX);
                        lemma_not_all_digits_or_too_large(ds, (i - start + 1) as int);
                    }
                    return None;
                },
                Some(v) => {
                    value = v;
                },
            },
        }
        i = i + 1;
    }
    assert(ds.take(ds.len() as int) =~= ds);
    Some(value)
}

proof fn lemma_not_all_digits_or_too_large(ds: Seq<char>, k: int)
    requires
        0 <= k <= ds.len(),
        digits_value(ds.take(k)) > usize::MAX,
    ensures
        !((forall|i: int| 0 <= i < ds.len() ==> is_digit(#[trigger] ds[i])) && digits_value(ds) <= usize::MAX),
{
    if forall|i: int| 0 <= i < ds.len() ==> is_digit(#[trigger] ds[i]) {
        lemma_digits_value_grows(ds, k);
    }
}

/// The decimal representation of `n`.
pub fn decimal_string(n: u64) -> (s: String)
    ensures
        s@ == decimal(n as nat),
{
    let mut v: Vec<char> = Vec::new();
    push_decimal(n, &mut v);
    assert(v@ =~= decimal(n as nat));
    string_from_chars(v.as_slice())
}

} // verus!
