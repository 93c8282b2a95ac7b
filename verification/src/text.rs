//! Text as sequences of characters: searching, replacing, trimming and
//! number rendering, each with an exact contract.

use vstd::prelude::*;

verus! {

/// The characters of every string of `v`, in order.
pub open spec fn views(v: Seq<String>) -> Seq<Seq<char>> {
    Seq::new(v.len(), |i: int| v[i]@)
}

/// `p` occurs in `s` at position `i`.
pub open spec fn occurs_at(s: Seq<char>, p: Seq<char>, i: int) -> bool {
    0 <= i && i + p.len() <= s.len() && s.subrange(i, i + p.len()) == p
}

/// `s` begins with `p`.
pub open spec fn starts_with(s: Seq<char>, p: Seq<char>) -> bool {
    occurs_at(s, p, 0)
}

/// `s` ends with `p`.
pub open spec fn ends_with(s: Seq<char>, p: Seq<char>) -> bool {
    occurs_at(s, p, s.len() - p.len())
}

/// `p` occurs somewhere in `s`.
pub open spec fn contains(s: Seq<char>, p: Seq<char>) -> bool {
    exists|i: int| occurs_at(s, p, i)
}

/// `p` occurs in `s` at some position below `limit`.
pub open spec fn occurs_before(s: Seq<char>, p: Seq<char>, limit: int) -> bool {
    exists|i: int| i < limit && occurs_at(s, p, i)
}

/// The position of the first occurrence of `p` in `s`, if there is one.
pub open spec fn find(s: Seq<char>, p: Seq<char>) -> Option<int> {
    if contains(s, p) {
        Some(choose|i: int| occurs_at(s, p, i) && !occurs_before(s, p, i))
    } else {
        None
    }
}

/// Some string of `list` equals `s`.
pub open spec fn has_member(list: Seq<Seq<char>>, s: Seq<char>) -> bool {
    exists|i: int| 0 <= i < list.len() && list[i] == s
}

/// Some string of `list` occurs in `s`.
pub open spec fn has_part(list: Seq<Seq<char>>, s: Seq<char>) -> bool {
    exists|i: int| 0 <= i < list.len() && contains(s, #[trigger] list[i])
}

/// Some string of `a` is a string of `b`.
pub open spec fn share_member(a: Seq<Seq<char>>, b: Seq<Seq<char>>) -> bool {
    exists|i: int| 0 <= i < a.len() && has_member(b, #[trigger] a[i])
}

/// `s` with every occurrence of the non-empty pattern `pat` replaced by
/// `rep`, scanning from the left and never re-reading what was replaced.
/// With an empty pattern nothing is replaced.
pub open spec fn replace_all(s: Seq<char>, pat: Seq<char>, rep: Seq<char>) -> Seq<char>
    decreases s.len(),
{
    if pat.len() == 0 || s.len() < pat.len() {
        s
    } else if occurs_at(s, pat, 0) {
        rep + replace_all(s.subrange(pat.len() as int, s.len() as int), pat, rep)
    } else {
        seq![s[0]] + replace_all(s.subrange(1, s.len() as int), pat, rep)
    }
}

/// `s` without its leading run of the character `c`.
pub open spec fn trim_leading(s: Seq<char>, c: char) -> Seq<char>
    decreases s.len(),
{
    if s.len() > 0 && s[0] == c {
        trim_leading(s.subrange(1, s.len() as int), c)
    } else {
        s
    }
}

/// `s` without its trailing run of the character `c`.
pub open spec fn trim_trailing(s: Seq<char>, c: char) -> Seq<char>
    decreases s.len(),
{
    if s.len() > 0 && s.last() == c {
        trim_trailing(s.drop_last(), c)
    } else {
        s
    }
}

/// The character that stands for a digit below ten.
pub open spec fn digit_char(d: nat) -> char {
    if d == 0 {
        '0'
    } else if d == 1 {
        '1'
    } else if d == 2 {
        '2'
    } else if d == 3 {
        '3'
    } else if d == 4 {
        '4'
    } else if d == 5 {
        '5'
    } else if d == 6 {
        '6'
    } else if d == 7 {
        '7'
    } else if d == 8 {
        '8'
    } else {
        '9'
    }
}

/// The decimal numeral of `n`, without leading zeros.
pub open spec fn decimal(n: nat) -> Seq<char>
    decreases n,
{
    if n < 10 {
        seq![digit_char(n)]
    } else {
        decimal(n / 10).push(digit_char(n % 10))
    }
}

/// The decimal numeral of an integer, with a minus sign below zero.
pub open spec fn signed_decimal(n: int) -> Seq<char> {
    if n < 0 {
        seq!['-'] + decimal((-n) as nat)
    } else {
        decimal(n as nat)
    }
}

/// The value of an ASCII digit; ten for any other character.
pub open spec fn digit_value(c: char) -> nat {
    if c == '0' {
        0
    } else if c == '1' {
        1
    } else if c == '2' {
        2
    } else if c == '3' {
        3
    } else if c == '4' {
        4
    } else if c == '5' {
        5
    } else if c == '6' {
        6
    } else if c == '7' {
        7
    } else if c == '8' {
        8
    } else if c == '9' {
        9
    } else {
        10
    }
}

/// `c` is one of the ten ASCII digits.
pub open spec fn is_digit(c: char) -> bool {
    digit_value(c) < 10
}

/// The lower-case form of an ASCII capital letter; any other character
/// unchanged.
pub open spec fn ascii_lower(c: char) -> char {
    if 'A' <= c && c <= 'Z' {
        ((c as u8) + 32) as char
    } else {
        c
    }
}

/// `a` and `b` are equal up to the case of ASCII letters.
pub open spec fn eq_ignore_ascii_case(a: Seq<char>, b: Seq<char>) -> bool {
    a.len() == b.len() && forall|i: int| 0 <= i < a.len() ==> ascii_lower(#[trigger] a[i]) == ascii_lower(b[i])
}

/// What `str::to_lowercase` makes of a string: its Unicode lower-case form.
pub uninterp spec fn lowercase(s: Seq<char>) -> Seq<char>;

/// The lower-case forms of the strings of a list.
pub open spec fn lowered(list: Seq<Seq<char>>) -> Seq<Seq<char>> {
    Seq::new(list.len(), |i: int| lowercase(list[i]))
}

/// Calls `str::to_lowercase`. The contract only names the result: the
/// Unicode case mapping is not written out here.
#[verifier::external_body]
pub(crate) fn to_lowercase(s: &str) -> (r: String)
    ensures
        r@ == lowercase(s@),
{
    s.to_lowercase()
}

/// What `str::trim` leaves of a string: the string without the white space
/// at its two ends.
pub uninterp spec fn trimmed(s: Seq<char>) -> Seq<char>;

/// Calls `str::trim`. The contract only names the result: which characters
/// are white space is Unicode's to say.
#[verifier::external_body]
pub(crate) fn trim_text(s: &str) -> (r: String)
    ensures
        r@ == trimmed(s@),
{
    String::from(s.trim())
}

/// Calls `String::push`: the character is added at the end.
#[verifier::external_body]
pub(crate) fn push_char(s: &mut String, c: char)
    ensures
        final(s)@ == old(s)@.push(c),
{
    s.push(c)
}

/// The characters of `s` as a vector.
pub fn chars_of(s: &str) -> (r: Vec<char>)
    ensures
        r@ == s@,
{
    let mut out: Vec<char> = Vec::new();
    for c in it: s.chars()
        invariant
            out@ == it.seq().take(it.index() as int),
            it.seq() == s@,
    {
        out.push(c);
    }
    out
}

/// The string made of the characters `v[from..to]`.
pub(crate) fn text_of_range(v: &Vec<char>, from: usize, to: usize) -> (r: String)
    requires
        from <= to <= v@.len(),
    ensures
        r@ == v@.subrange(from as int, to as int),
{
    let mut out = String::new();
    let mut i: usize = from;
    while i < to
        invariant
            from <= i <= to <= v@.len(),
            out@ == v@.subrange(from as int, i as int),
        decreases to - i,
    {
        push_char(&mut out, v[i]);
        i += 1;
    }
    out
}

/// The string made of the characters of `v`.
pub fn text_of(v: &Vec<char>) -> (r: String)
    ensures
        r@ == v@,
{
    let r = text_of_range(v, 0, v.len());
    assert(v@.subrange(0, v@.len() as int) == v@);
    r
}

/// Whether `p` occurs in `s` at position `i`.
pub fn occurs_at_chars(s: &Vec<char>, p: &Vec<char>, i: usize) -> (r: bool)
    ensures
        r == occurs_at(s@, p@, i as int),
{
    if p.len() > s.len() || i > s.len() - p.len() {
        return false;
    }
    let mut k: usize = 0;
    while k < p.len()
        invariant
            k <= p@.len(),
            i + p@.len() <= s@.len() <= usize::MAX,
            forall|j: int| 0 <= j < k ==> s@[i + j] == p@[j],
        decreases p@.len() - k,
    {
        if s[i + k] != p[k] {
            assert(s@.subrange(i as int, i + p@.len())[k as int] != p@[k as int]);
            return false;
        }
        k += 1;
    }
    assert(s@.subrange(i as int, i + p@.len()) =~= p@);
    true
}

/// There is one first occurrence at most.
pub proof fn lemma_first_occurrence(s: Seq<char>, p: Seq<char>, i: int)
    requires
        occurs_at(s, p, i),
        !occurs_before(s, p, i),
    ensures
        find(s, p) == Some(i),
{
    let k = choose|k: int| occurs_at(s, p, k) && !occurs_before(s, p, k);
    if k < i {
        assert(occurs_before(s, p, i));
    }
    if i < k {
        assert(occurs_before(s, p, k));
    }
}

/// The position of the first occurrence of `p` in `s`.
pub fn find_chars(s: &Vec<char>, p: &Vec<char>) -> (r: Option<usize>)
    ensures
        match r {
            Some(i) => find(s@, p@) == Some(i as int) && occurs_at(s@, p@, i as int)
                && !occurs_before(s@, p@, i as int),
            None => find(s@, p@) is None && !contains(s@, p@),
        },
        r is Some <==> contains(s@, p@),
{
    if p.len() > s.len() {
        return None;
    }
    let last = s.len() - p.len();
    let mut i: usize = 0;
    loop
        invariant
            i <= last,
            last == s@.len() - p@.len(),
            !occurs_before(s@, p@, i as int),
        decreases last - i,
    {
        if occurs_at_chars(s, p, i) {
            proof {
                lemma_first_occurrence(s@, p@, i as int);
            }
            return Some(i);
        }
        if i == last {
            return None;
        }
        i += 1;
    }
}

/// Whether `p` occurs somewhere in `s`.
pub fn contains_text(s: &str, p: &str) -> (r: bool)
    ensures
        r == contains(s@, p@),
{
    let sv = chars_of(s);
    let pv = chars_of(p);
    find_chars(&sv, &pv).is_some()
}

/// Whether the character `c` occurs in `s`.
pub fn contains_char(s: &str, c: char) -> (r: bool)
    ensures
        r == s@.contains(c),
{
    let sv = chars_of(s);
    let mut i: usize = 0;
    while i < sv.len()
        invariant
            i <= sv@.len(),
            sv@ == s@,
            forall|j: int| 0 <= j < i ==> sv@[j] != c,
        decreases sv@.len() - i,
    {
        if sv[i] == c {
            return true;
        }
        i += 1;
    }
    false
}

/// Whether `s` begins with `p`.
pub fn starts_with_text(s: &str, p: &str) -> (r: bool)
    ensures
        r == starts_with(s@, p@),
{
    let sv = chars_of(s);
    let pv = chars_of(p);
    occurs_at_chars(&sv, &pv, 0)
}

/// Whether `s` ends with `p`.
pub fn ends_with_text(s: &str, p: &str) -> (r: bool)
    ensures
        r == ends_with(s@, p@),
{
    let sv = chars_of(s);
    let pv = chars_of(p);
    if pv.len() > sv.len() {
        return false;
    }
    occurs_at_chars(&sv, &pv, sv.len() - pv.len())
}

/// Whether two strings hold the same characters.
pub fn same_text(a: &str, b: &str) -> (r: bool)
    ensures
        r == (a@ == b@),
{
    let av = chars_of(a);
    let bv = chars_of(b);
    if av.len() != bv.len() {
        return false;
    }
    let r = occurs_at_chars(&av, &bv, 0);
    assert(av@.subrange(0, av@.len() as int) == av@);
    r
}

/// Whether some string of `list` equals `s`.
pub fn list_has(list: &[String], s: &str) -> (r: bool)
    ensures
        r == has_member(views(list@), s@),
{
    let mut i: usize = 0;
    while i < list.len()
        invariant
            i <= list@.len(),
            forall|j: int| 0 <= j < i ==> views(list@)[j] != s@,
        decreases list@.len() - i,
    {
        if same_text(list[i].as_str(), s) {
            assert(views(list@)[i as int] == s@);
            return true;
        }
        i += 1;
    }
    false
}

/// `s` with every occurrence of `pat` replaced by `rep`.
pub fn replace_text(s: &str, pat: &str, rep: &str) -> (r: String)
    ensures
        r@ == replace_all(s@, pat@, rep@),
{
    let sv = chars_of(s);
    let pv = chars_of(pat);
    let mut out = String::new();
    let n = sv.len();
    if pv.len() == 0 {
        return text_of(&sv);
    }
    let mut i: usize = 0;
    proof {
        assert(sv@.subrange(0, n as int) == sv@);
        assert(Seq::<char>::empty() + replace_all(sv@, pv@, rep@) == replace_all(sv@, pv@, rep@));
    }
    while i < n
        invariant
            i <= n,
            n == sv@.len(),
            sv@ == s@,
            pv@ == pat@,
            pv@.len() > 0,
            out@ + replace_all(sv@.subrange(i as int, n as int), pv@, rep@) == replace_all(
                sv@,
                pv@,
                rep@,
            ),
        decreases n - i,
    {
        let ghost rest = sv@.subrange(i as int, n as int);
        if occurs_at_chars(&sv, &pv, i) {
            proof {
                assert(rest.subrange(0, pv@.len() as int) == sv@.subrange(i as int, i + pv@.len()));
                assert(rest.subrange(pv@.len() as int, rest.len() as int) == sv@.subrange(
                    i + pv@.len(),
                    n as int,
                ));
                assert(out@ + (rep@ + replace_all(
                    sv@.subrange(i + pv@.len(), n as int),
                    pv@,
                    rep@,
                )) == (out@ + rep@) + replace_all(sv@.subrange(i + pv@.len(), n as int), pv@, rep@));
            }
            out.append(rep);
            i += pv.len();
        } else {
            proof {
                if rest.len() >= pv@.len() {
                    assert(rest.subrange(0, pv@.len() as int) == sv@.subrange(
                        i as int,
                        i + pv@.len(),
                    ));
                    assert(rest.subrange(1, rest.len() as int) == sv@.subrange(i + 1, n as int));
                    assert(out@ + (seq![rest[0]] + replace_all(
                        sv@.subrange(i + 1, n as int),
                        pv@,
                        rep@,
                    )) == out@.push(sv@[i as int]) + replace_all(
                        sv@.subrange(i + 1, n as int),
                        pv@,
                        rep@,
                    ));
                }
            }
            if n - i < pv.len() {
                // No further occurrence fits: the rest is copied as it is.
                let tail = text_of_range(&sv, i, n);
                out.append(tail.as_str());
                proof {
                    assert(sv@.subrange(n as int, n as int).len() == 0);
                    assert(out@ + replace_all(sv@.subrange(n as int, n as int), pv@, rep@) == out@);
                }
                i = n;
            } else {
                push_char(&mut out, sv[i]);
                i += 1;
            }
        }
    }
    proof {
        assert(sv@.subrange(n as int, n as int).len() == 0);
        assert(out@ + replace_all(sv@.subrange(n as int, n as int), pv@, rep@) == out@);
    }
    out
}

/// `s` without its leading run of the character `c`.
pub fn trim_leading_text(s: &str, c: char) -> (r: String)
    ensures
        r@ == trim_leading(s@, c),
{
    let sv = chars_of(s);
    let n = sv.len();
    let mut i: usize = 0;
    proof {
        assert(sv@.subrange(0, n as int) == sv@);
    }
    while i < n && sv[i] == c
        invariant
            i <= n,
            n == sv@.len(),
            trim_leading(sv@.subrange(i as int, n as int), c) == trim_leading(sv@, c),
        decreases n - i,
    {
        proof {
            let rest = sv@.subrange(i as int, n as int);
            assert(rest.subrange(1, rest.len() as int) == sv@.subrange(i + 1, n as int));
        }
        i += 1;
    }
    text_of_range(&sv, i, n)
}

/// `s` without its trailing run of the character `c`.
pub fn trim_trailing_text(s: &str, c: char) -> (r: String)
    ensures
        r@ == trim_trailing(s@, c),
{
    let sv = chars_of(s);
    let mut n: usize = sv.len();
    proof {
        assert(sv@.subrange(0, n as int) == sv@);
    }
    while n > 0 && sv[n - 1] == c
        invariant
            n <= sv@.len(),
            trim_trailing(sv@.subrange(0, n as int), c) == trim_trailing(sv@, c),
        decreases n,
    {
        proof {
            let head = sv@.subrange(0, n as int);
            assert(head.drop_last() == sv@.subrange(0, n - 1));
        }
        n -= 1;
    }
    text_of_range(&sv, 0, n)
}

/// The character of a digit below ten.
pub(crate) fn digit_of(d: u8) -> (c: char)
    requires
        d < 10,
    ensures
        c == digit_char(d as nat),
{
    if d == 0 {
        '0'
    } else if d == 1 {
        '1'
    } else if d == 2 {
        '2'
    } else if d == 3 {
        '3'
    } else if d == 4 {
        '4'
    } else if d == 5 {
        '5'
    } else if d == 6 {
        '6'
    } else if d == 7 {
        '7'
    } else if d == 8 {
        '8'
    } else {
        '9'
    }
}

/// The decimal numeral of `n`.
pub fn decimal_text(n: u64) -> (r: String)
    ensures
        r@ == decimal(n as nat),
{
    // Digits come out lowest first; they are then written in reverse.
    let mut digits: Vec<char> = Vec::new();
    let mut rest: u64 = n;
    digits.push(digit_of((rest % 10) as u8));
    rest = rest / 10;
    while rest > 0
        invariant
            digits@.len() > 0,
            decimal(n as nat) == if rest == 0 {
                digits@.reverse()
            } else {
                decimal(rest as nat) + digits@.reverse()
            },
        decreases rest,
    {
        let ghost before = digits@;
        digits.push(digit_of((rest % 10) as u8));
        proof {
            let d = digit_char((rest % 10) as nat);
            assert(digits@.reverse() =~= seq![d] + before.reverse());
            if rest >= 10 {
                assert(decimal(rest as nat) == decimal((rest / 10) as nat).push(d));
                assert(decimal((rest / 10) as nat).push(d) + before.reverse() =~= decimal(
                    (rest / 10) as nat,
                ) + (seq![d] + before.reverse()));
            } else {
                assert(decimal(rest as nat) == seq![d]);
            }
        }
        rest = rest / 10;
    }
    let mut out = String::new();
    let mut k: usize = digits.len();
    while k > 0
        invariant
            k <= digits@.len(),
            out@ == digits@.reverse().subrange(0, digits@.len() - k),
        decreases k,
    {
        k -= 1;
        push_char(&mut out, digits[k]);
        proof {
            let rv = digits@.reverse();
            assert(rv.subrange(0, digits@.len() - k) =~= rv.subrange(
                0,
                digits@.len() - k - 1,
            ).push(digits@[k as int]));
        }
    }
    proof {
        assert(digits@.reverse().subrange(0, digits@.len() as int) == digits@.reverse());
    }
    out
}

/// The decimal numeral of a signed number.
pub fn signed_decimal_text(n: i64) -> (r: String)
    ensures
        r@ == signed_decimal(n as int),
{
    if n < 0 {
        let magnitude: u64 = if n == i64::MIN {
            9_223_372_036_854_775_808u64
        } else {
            (-n) as u64
        };
        let mut out = String::from_str("-");
        proof {
            reveal_strlit("-");
            assert("-"@ =~= seq!['-']);
        }
        let digits = decimal_text(magnitude);
        out.append(digits.as_str());
        out
    } else {
        decimal_text(n as u64)
    }
}

/// The lower-case form of an ASCII capital letter; any other character
/// unchanged.
pub fn ascii_lower_of(c: char) -> (r: char)
    ensures
        r == ascii_lower(c),
{
    if 'A' <= c && c <= 'Z' {
        ((c as u8) + 32) as char
    } else {
        c
    }
}

/// Whether two strings are equal up to the case of ASCII letters.
pub fn same_text_ignore_ascii_case(a: &str, b: &str) -> (r: bool)
    ensures
        r == eq_ignore_ascii_case(a@, b@),
{
    let av = chars_of(a);
    let bv = chars_of(b);
    if av.len() != bv.len() {
        return false;
    }
    let mut i: usize = 0;
    while i < av.len()
        invariant
            i <= av@.len(),
            av@.len() == bv@.len(),
            av@ == a@,
            bv@ == b@,
            forall|j: int| 0 <= j < i ==> ascii_lower(#[trigger] av@[j]) == ascii_lower(bv@[j]),
        decreases av@.len() - i,
    {
        if ascii_lower_of(av[i]) != ascii_lower_of(bv[i]) {
            return false;
        }
        i += 1;
    }
    true
}

/// Whether some string of `list` occurs in `s`.
pub fn list_has_part(list: &[String], s: &str) -> (r: bool)
    ensures
        r == has_part(views(list@), s@),
{
    let mut i: usize = 0;
    while i < list.len()
        invariant
            i <= list@.len(),
            forall|j: int| 0 <= j < i ==> !contains(s@, #[trigger] views(list@)[j]),
        decreases list@.len() - i,
    {
        if contains_text(s, list[i].as_str()) {
            assert(contains(s@, views(list@)[i as int]));
            return true;
        }
        i += 1;
    }
    false
}

/// Whether some string of `a` is a string of `b`.
pub fn lists_share(a: &[String], b: &[String]) -> (r: bool)
    ensures
        r == share_member(views(a@), views(b@)),
{
    let mut i: usize = 0;
    while i < a.len()
        invariant
            i <= a@.len(),
            forall|j: int| 0 <= j < i ==> !has_member(views(b@), #[trigger] views(a@)[j]),
        decreases a@.len() - i,
    {
        if list_has(b, a[i].as_str()) {
            assert(has_member(views(b@), views(a@)[i as int]));
            return true;
        }
        i += 1;
    }
    false
}

/// The lower-case forms of the strings of a list.
pub fn lower_all(list: &[String]) -> (r: Vec<String>)
    ensures
        views(r@) == lowered(views(list@)),
{
    let mut out: Vec<String> = Vec::new();
    let mut i: usize = 0;
    while i < list.len()
        invariant
            i <= list@.len(),
            out@.len() == i,
            forall|j: int| 0 <= j < i ==> (#[trigger] out@[j])@ == lowercase(list@[j]@),
        decreases list@.len() - i,
    {
        out.push(to_lowercase(list[i].as_str()));
        i += 1;
    }
    assert(views(out@) =~= lowered(views(list@)));
    out
}

} // verus!
