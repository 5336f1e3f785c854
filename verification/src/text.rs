//! Text: the string operations that the rest of the crate is written over, each
//! stated on the sequence of characters that a string holds.

use vstd::prelude::*;

verus! {

/// Whether a character has the Unicode `White_Space` property, as `char::is_whitespace` tells.
pub uninterp spec fn whitespace(c: char) -> bool;

/// The lowercase form of a text by the Unicode mapping, as `str::to_lowercase` gives it.
pub uninterp spec fn lowercased(s: Seq<char>) -> Seq<char>;

/// `char::is_whitespace`: the answer is a property of the character alone. Its
/// documentation gives the space as a character that has it.
#[verifier::external_body]
fn is_whitespace(c: char) -> (r: bool)
    ensures
        r == whitespace(c),
        c == ' ' ==> r,
{
    c.is_whitespace()
}

/// `str::to_lowercase`: the result is a function of the text alone; how Unicode maps
/// each character is not stated.
#[verifier::external_body]
pub(crate) fn to_lowercase(s: &str) -> (r: String)
    ensures
        r@ == lowercased(s@),
{
    s.to_lowercase()
}

/// A text without the whitespace in front.
pub open spec fn trimmed_start(s: Seq<char>) -> Seq<char>
    decreases s.len(),
{
    if s.len() > 0 && whitespace(s[0]) {
        trimmed_start(s.drop_first())
    } else {
        s
    }
}

/// A text without the whitespace behind.
pub open spec fn trimmed_end(s: Seq<char>) -> Seq<char>
    decreases s.len(),
{
    if s.len() > 0 && whitespace(s.last()) {
        trimmed_end(s.drop_last())
    } else {
        s
    }
}

/// A text without the whitespace around it.
pub open spec fn trimmed(s: Seq<char>) -> Seq<char> {
    trimmed_end(trimmed_start(s))
}

/// A text that holds nothing but whitespace.
pub open spec fn blank(s: Seq<char>) -> bool {
    trimmed(s).len() == 0
}

/// A text with a content of its own, without the whitespace around it.
pub open spec fn non_blank(s: Option<Seq<char>>) -> Option<Seq<char>> {
    match s {
        Some(s) => if blank(s) {
            None
        } else {
            Some(trimmed(s))
        },
        None => None,
    }
}

proof fn lemma_trimmed_start(s: Seq<char>, i: int)
    requires
        0 <= i <= s.len(),
        forall|k: int| 0 <= k < i ==> whitespace(#[trigger] s[k]),
        i < s.len() ==> !whitespace(s[i]),
    ensures
        trimmed_start(s) == s.subrange(i, s.len() as int),
    decreases i,
{
    if i == 0 {
        assert(s.subrange(0, s.len() as int) =~= s);
    } else {
        let t = s.drop_first();
        assert forall|k: int| 0 <= k < i - 1 implies whitespace(#[trigger] t[k]) by {
            assert(t[k] == s[k + 1]);
        }
        lemma_trimmed_start(t, i - 1);
        assert(whitespace(s[0]));
        assert(t.subrange(i - 1, t.len() as int) =~= s.subrange(i, s.len() as int));
    }
}

proof fn lemma_trimmed_end(s: Seq<char>, i: int)
    requires
        0 <= i <= s.len(),
        forall|k: int| i <= k < s.len() ==> whitespace(#[trigger] s[k]),
        i > 0 ==> !whitespace(s[i - 1]),
    ensures
        trimmed_end(s) == s.subrange(0, i),
    decreases s.len() - i,
{
    if i == s.len() {
        assert(s.subrange(0, i) =~= s);
    } else {
        let t = s.drop_last();
        assert(whitespace(s[s.len() - 1]));
        lemma_trimmed_end(t, i);
        assert(t.subrange(0, i) =~= s.subrange(0, i));
    }
}

proof fn lemma_trimmed_end_idle(s: Seq<char>)
    ensures
        trimmed_end(s).len() > 0 ==> !whitespace(trimmed_end(s).last()) && trimmed_end(s)[0] == s[0]
            && s.len() > 0,
    decreases s.len(),
{
    if s.len() > 0 && whitespace(s.last()) {
        lemma_trimmed_end_idle(s.drop_last());
    }
}

proof fn lemma_trimmed_start_idle(s: Seq<char>)
    ensures
        trimmed_start(s).len() > 0 ==> !whitespace(trimmed_start(s)[0]),
    decreases s.len(),
{
    if s.len() > 0 && whitespace(s[0]) {
        lemma_trimmed_start_idle(s.drop_first());
    }
}

/// A text without whitespace around it stays as it is.
pub proof fn lemma_trimmed_twice(s: Seq<char>)
    ensures
        trimmed(trimmed(s)) == trimmed(s),
{
    lemma_trimmed_start_idle(s);
    lemma_trimmed_end_idle(trimmed_start(s));
}

/// The characters of a text.
pub fn chars_of(s: &str) -> (r: Vec<char>)
    ensures
        r@ == s@,
{
    let mut r: Vec<char> = Vec::new();
    for c in it: s.chars()
        invariant
            r@ == it.seq().take(it.index() as int),
            it.seq() == s@,
    {
        r.push(c);
    }
    assert(r@ =~= s@);
    r
}

/// Whether two texts hold the same characters.
pub fn same_text(a: &str, b: &str) -> (r: bool)
    ensures
        r == (a@ == b@),
{
    let left = chars_of(a);
    let right = chars_of(b);
    if left.len() != right.len() {
        return false;
    }
    let mut i: usize = 0;
    while i < left.len()
        invariant
            0 <= i <= left@.len(),
            left@.len() == right@.len(),
            left@ == a@,
            right@ == b@,
            forall|k: int| 0 <= k < i ==> left@[k] == right@[k],
        decreases left@.len() - i,
    {
        if left[i] != right[i] {
            return false;
        }
        i += 1;
    }
    assert(left@ =~= right@);
    true
}

/// A text without the whitespace around it.
pub fn trim(s: &str) -> (r: String)
    ensures
        r@ == trimmed(s@),
{
    let chars = chars_of(s);
    let mut from: usize = 0;
    while from < chars.len() && is_whitespace(chars[from])
        invariant
            0 <= from <= chars@.len(),
            chars@ == s@,
            forall|k: int| 0 <= k < from ==> whitespace(#[trigger] s@[k]),
        ensures
            0 <= from <= chars@.len(),
            forall|k: int| 0 <= k < from ==> whitespace(#[trigger] s@[k]),
            from < s@.len() ==> !whitespace(s@[from as int]),
        decreases chars@.len() - from,
    {
        from += 1;
    }
    let mut to: usize = chars.len();
    while to > from && is_whitespace(chars[to - 1])
        invariant
            from <= to <= chars@.len(),
            chars@ == s@,
            forall|k: int| to <= k < s@.len() ==> whitespace(#[trigger] s@[k]),
        ensures
            from <= to <= chars@.len(),
            forall|k: int| to <= k < s@.len() ==> whitespace(#[trigger] s@[k]),
            to > from ==> !whitespace(s@[to - 1]),
        decreases to - from,
    {
        to -= 1;
    }
    proof {
        lemma_trimmed_start(s@, from as int);
        let t = s@.subrange(from as int, s@.len() as int);
        assert forall|k: int| to - from <= k < t.len() implies whitespace(#[trigger] t[k]) by {
            assert(t[k] == s@[k + from]);
        }
        if to > from {
            assert(t[to - from - 1] == s@[to - 1]);
        }
        lemma_trimmed_end(t, to - from);
        assert(t.subrange(0, to - from) =~= s@.subrange(from as int, to as int));
    }
    s.substring_char(from, to).to_string()
}

/// Whether a text holds nothing but whitespace.
pub fn is_blank(s: &str) -> (r: bool)
    ensures
        r == blank(s@),
{
    trim(s).as_str().is_empty()
}

/// The lowercase form of an ASCII letter; any other character as it is.
pub open spec fn ascii_lower(c: char) -> char {
    if 'A' <= c && c <= 'Z' {
        (c as u32 + 32) as char
    } else {
        c
    }
}

/// A text with its ASCII letters in lowercase.
pub open spec fn ascii_lowered(s: Seq<char>) -> Seq<char> {
    s.map_values(|c: char| ascii_lower(c))
}

/// Whether two texts differ at most in the case of their ASCII letters.
pub open spec fn same_ignoring_case(a: Seq<char>, b: Seq<char>) -> bool {
    ascii_lowered(a) == ascii_lowered(b)
}

fn lower_char(c: char) -> (r: char)
    ensures
        r == ascii_lower(c),
{
    if 'A' <= c && c <= 'Z' {
        ((c as u8) + 32) as char
    } else {
        c
    }
}

/// Whether two texts differ at most in the case of their ASCII letters.
pub fn eq_ignore_ascii_case(a: &str, b: &str) -> (r: bool)
    ensures
        r == same_ignoring_case(a@, b@),
{
    let left = chars_of(a);
    let right = chars_of(b);
    if left.len() != right.len() {
        assert(ascii_lowered(a@).len() != ascii_lowered(b@).len());
        return false;
    }
    let mut i: usize = 0;
    while i < left.len()
        invariant
            left@ == a@,
            right@ == b@,
            left@.len() == right@.len(),
            0 <= i <= left@.len(),
            forall|k: int| 0 <= k < i ==> #[trigger] ascii_lowered(a@)[k] == ascii_lowered(b@)[k],
        decreases left@.len() - i,
    {
        if lower_char(left[i]) != lower_char(right[i]) {
            assert(ascii_lowered(a@)[i as int] != ascii_lowered(b@)[i as int]);
            return false;
        }
        i += 1;
    }
    assert(ascii_lowered(a@) =~= ascii_lowered(b@));
    true
}

/// Whether `needle` stands in `haystack` at `at`.
pub open spec fn occurs_at(haystack: Seq<char>, needle: Seq<char>, at: int) -> bool {
    &&& 0 <= at
    &&& at + needle.len() <= haystack.len()
    &&& haystack.subrange(at, at + needle.len()) == needle
}

/// Whether `needle` stands somewhere in `haystack`.
pub open spec fn occurs(haystack: Seq<char>, needle: Seq<char>) -> bool {
    exists|at: int| occurs_at(haystack, needle, at)
}

/// Whether `needle` stands somewhere in `haystack`.
pub fn contains(haystack: &str, needle: &str) -> (r: bool)
    ensures
        r == occurs(haystack@, needle@),
{
    let hay = chars_of(haystack);
    let sought = chars_of(needle);
    if sought.len() > hay.len() {
        return false;
    }
    let last: usize = hay.len() - sought.len();
    let mut at: usize = 0;
    while at <= last
        invariant
            hay@ == haystack@,
            sought@ == needle@,
            last == hay@.len() - sought@.len(),
            hay@.len() <= usize::MAX,
            0 <= at <= last + 1,
            last < usize::MAX || at <= last,
            forall|k: int| 0 <= k < at ==> !occurs_at(haystack@, needle@, k),
        decreases last + 1 - at,
    {
        let mut n: usize = 0;
        while n < sought.len() && hay[at + n] == sought[n]
            invariant
                hay@ == haystack@,
                sought@ == needle@,
                last == hay@.len() - sought@.len(),
                hay@.len() <= usize::MAX,
                0 <= at <= last,
                0 <= n <= sought@.len(),
                forall|k: int| 0 <= k < n ==> hay@[at + k] == #[trigger] sought@[k],
            ensures
                0 <= n <= sought@.len(),
                forall|k: int| 0 <= k < n ==> hay@[at + k] == #[trigger] sought@[k],
                n < sought@.len() ==> hay@[at + n] != sought@[n as int],
            decreases sought@.len() - n,
        {
            n += 1;
        }
        if n == sought.len() {
            assert(haystack@.subrange(at as int, at + needle@.len()) =~= needle@);
            assert(occurs_at(haystack@, needle@, at as int));
            return true;
        }
        proof {
            if occurs_at(haystack@, needle@, at as int) {
                assert(haystack@.subrange(at as int, at + needle@.len())[n as int] == needle@[n as int]);
            }
        }
        if at == last {
            return false;
        }
        at += 1;
    }
    false
}

/// Texts one behind the other, with a separator between each two.
pub open spec fn joined(parts: Seq<Seq<char>>, separator: Seq<char>) -> Seq<char>
    decreases parts.len(),
{
    if parts.len() == 0 {
        Seq::empty()
    } else if parts.len() == 1 {
        parts[0]
    } else {
        joined(parts.drop_last(), separator) + separator + parts.last()
    }
}

/// Texts one behind the other, with a separator between each two.
pub fn join(parts: &Vec<String>, separator: &str) -> (r: String)
    ensures
        r@ == joined(parts.deep_view(), separator@),
{
    let mut r = String::new();
    let mut i: usize = 0;
    while i < parts.len()
        invariant
            0 <= i <= parts@.len(),
            r@ == joined(parts.deep_view().take(i as int), separator@),
        decreases parts@.len() - i,
    {
        proof {
            let next = parts.deep_view().take(i + 1);
            assert(next.drop_last() =~= parts.deep_view().take(i as int));
            assert(next.last() == parts@[i as int]@);
        }
        if i > 0 {
            r.append(separator);
        }
        r.append(parts[i].as_str());
        proof {
            assert(i == 0 ==> r@ =~= parts@[0]@);
        }
        i += 1;
    }
    assert(parts.deep_view().take(i as int) =~= parts.deep_view());
    r
}

/// Whether `a` stands before `b` in the order of their code points.
pub open spec fn precedes(a: Seq<char>, b: Seq<char>) -> bool
    decreases a.len(),
{
    if b.len() == 0 {
        false
    } else if a.len() == 0 {
        true
    } else if a[0] != b[0] {
        a[0] < b[0]
    } else {
        precedes(a.drop_first(), b.drop_first())
    }
}

/// Of two texts one stands before the other, or they are the same; never both.
pub proof fn lemma_precedes_total(a: Seq<char>, b: Seq<char>)
    ensures
        precedes(a, b) || precedes(b, a) || a == b,
        !(precedes(a, b) && precedes(b, a)),
        precedes(a, b) ==> a != b,
    decreases a.len(),
{
    if a.len() == 0 || b.len() == 0 {
        if a.len() == 0 && b.len() == 0 {
            assert(a =~= b);
        }
    } else if a[0] == b[0] {
        lemma_precedes_total(a.drop_first(), b.drop_first());
        if a.drop_first() == b.drop_first() {
            assert(a =~= seq![a[0]] + a.drop_first());
            assert(b =~= seq![b[0]] + b.drop_first());
        }
    }
}

/// What stands before a text also stands before all that it does not come after.
pub proof fn lemma_precedes_transitive(a: Seq<char>, b: Seq<char>, c: Seq<char>)
    requires
        precedes(a, b),
        precedes(b, c) || b == c,
    ensures
        precedes(a, c),
    decreases a.len(),
{
    if b != c && a.len() > 0 {
        if a[0] == b[0] && b[0] == c[0] {
            lemma_precedes_transitive(a.drop_first(), b.drop_first(), c.drop_first());
        }
    }
}

proof fn lemma_precedes_skip(a: Seq<char>, b: Seq<char>, i: int)
    requires
        0 <= i <= a.len(),
        i <= b.len(),
        forall|k: int| 0 <= k < i ==> a[k] == #[trigger] b[k],
    ensures
        precedes(a, b) == precedes(a.skip(i), b.skip(i)),
    decreases i,
{
    if i == 0 {
        assert(a.skip(0) =~= a);
        assert(b.skip(0) =~= b);
    } else {
        let (x, y) = (a.drop_first(), b.drop_first());
        assert(a[0] == b[0]);
        assert forall|k: int| 0 <= k < i - 1 implies x[k] == #[trigger] y[k] by {
            assert(a[k + 1] == b[k + 1]);
        }
        lemma_precedes_skip(x, y, i - 1);
        assert(x.skip(i - 1) =~= a.skip(i));
        assert(y.skip(i - 1) =~= b.skip(i));
    }
}

/// Whether `a` stands before `b` in the order of their code points.
pub fn is_before(a: &str, b: &str) -> (r: bool)
    ensures
        r == precedes(a@, b@),
{
    let left = chars_of(a);
    let right = chars_of(b);
    let mut i: usize = 0;
    while i < left.len() && i < right.len() && left[i] == right[i]
        invariant
            left@ == a@,
            right@ == b@,
            0 <= i <= left@.len(),
            i <= right@.len(),
            forall|k: int| 0 <= k < i ==> a@[k] == #[trigger] b@[k],
        ensures
            0 <= i <= left@.len(),
            i <= right@.len(),
            forall|k: int| 0 <= k < i ==> a@[k] == #[trigger] b@[k],
            i < left@.len() && i < right@.len() ==> a@[i as int] != b@[i as int],
        decreases left@.len() - i,
    {
        i += 1;
    }
    proof {
        lemma_precedes_skip(a@, b@, i as int);
    }
    if i >= right.len() {
        false
    } else if i >= left.len() {
        true
    } else {
        left[i] < right[i]
    }
}

/// A copy of a text that may be missing.
pub fn copy_option(s: &Option<String>) -> (r: Option<String>)
    ensures
        r.deep_view() == s.deep_view(),
{
    match s {
        Some(s) => Some(s.clone()),
        None => None,
    }
}

/// A text that may be missing, with its own storage.
pub fn owned_option(s: Option<&str>) -> (r: Option<String>)
    ensures
        r.deep_view() == s.deep_view(),
{
    match s {
        Some(s) => Some(s.to_string()),
        None => None,
    }
}

/// The trimmed text, if there is one that is not blank.
pub fn clean_option(s: Option<&str>) -> (r: Option<String>)
    ensures
        r.deep_view() == non_blank(s.deep_view()),
{
    match s {
        Some(s) => {
            let trimmed = trim(s);
            if trimmed.as_str().is_empty() {
                None
            } else {
                Some(trimmed)
            }
        },
        None => None,
    }
}

/// A text that may be missing, without its storage.
pub fn borrowed_option(s: &Option<String>) -> (r: Option<&str>)
    ensures
        r.deep_view() == s.deep_view(),
{
    match s {
        Some(s) => Some(s.as_str()),
        None => None,
    }
}

/// A copy of a list of texts.
pub fn copy_list(list: &Vec<String>) -> (r: Vec<String>)
    ensures
        r.deep_view() == list.deep_view(),
{
    let mut r: Vec<String> = Vec::new();
    let mut i: usize = 0;
    while i < list.len()
        invariant
            0 <= i <= list@.len(),
            r.deep_view() == list.deep_view().take(i as int),
        decreases list@.len() - i,
    {
        let ghost before = r;
        r.push(list[i].clone());
        proof {
            crate::rows::lemma_deep_push(before, r, list@[i as int]);
            assert(list.deep_view().take(i + 1) =~= list.deep_view().take(i as int).push(list@[i as int]@));
        }
        i += 1;
    }
    assert(list.deep_view().take(i as int) =~= list.deep_view());
    r
}

/// Whether a list holds a text.
pub fn list_contains(list: &Vec<String>, s: &str) -> (r: bool)
    ensures
        r == list.deep_view().contains(s@),
{
    let mut i: usize = 0;
    while i < list.len()
        invariant
            0 <= i <= list@.len(),
            forall|k: int| 0 <= k < i ==> #[trigger] list.deep_view()[k] != s@,
        decreases list@.len() - i,
    {
        if same_text(list[i].as_str(), s) {
            assert(list.deep_view()[i as int] == s@);
            return true;
        }
        i += 1;
    }
    false
}

/// Two texts one behind the other.
pub fn concat2(a: &str, b: &str) -> (r: String)
    ensures
        r@ == a@ + b@,
{
    let mut r = a.to_string();
    r.append(b);
    r
}

/// Three texts one behind the other.
pub fn concat3(a: &str, b: &str, c: &str) -> (r: String)
    ensures
        r@ == a@ + b@ + c@,
{
    let mut r = concat2(a, b);
    r.append(c);
    r
}

/// Four texts one behind the other.
pub fn concat4(a: &str, b: &str, c: &str, d: &str) -> (r: String)
    ensures
        r@ == a@ + b@ + c@ + d@,
{
    let mut r = concat3(a, b, c);
    r.append(d);
    r
}

/// Five texts one behind the other.
pub fn concat5(a: &str, b: &str, c: &str, d: &str, e: &str) -> (r: String)
    ensures
        r@ == a@ + b@ + c@ + d@ + e@,
{
    let mut r = concat4(a, b, c, d);
    r.append(e);
    r
}

/// The character of a digit.
pub open spec fn digit(d: int) -> char {
    (d + 48) as char
}

/// A natural number in decimal notation.
pub open spec fn decimal(n: nat) -> Seq<char>
    decreases n,
{
    if n < 10 {
        seq![digit(n as int)]
    } else {
        decimal(n / 10).push(digit((n % 10) as int))
    }
}

/// A whole number in decimal notation.
pub open spec fn signed_decimal(n: int) -> Seq<char> {
    if n < 0 {
        "-"@ + decimal((-n) as nat)
    } else {
        decimal(n as nat)
    }
}

fn digit_text(d: u64) -> (r: &'static str)
    requires
        d < 10,
    ensures
        r@ == seq![digit(d as int)],
{
    proof {
        reveal_strlit("0");
        reveal_strlit("1");
        reveal_strlit("2");
        reveal_strlit("3");
        reveal_strlit("4");
        reveal_strlit("5");
        reveal_strlit("6");
        reveal_strlit("7");
        reveal_strlit("8");
        reveal_strlit("9");
    }
    let r: &'static str = match d {
        0 => "0",
        1 => "1",
        2 => "2",
        3 => "3",
        4 => "4",
        5 => "5",
        6 => "6",
        7 => "7",
        8 => "8",
        _ => "9",
    };
    assert(r@ =~= seq![digit(d as int)]);
    r
}

/// A natural number in decimal notation.
pub fn nat_text(n: u64) -> (r: String)
    ensures
        r@ == decimal(n as nat),
    decreases n,
{
    if n < 10 {
        digit_text(n).to_string()
    } else {
        let mut r = nat_text(n / 10);
        r.append(digit_text(n % 10));
        assert(r@ =~= decimal(n as nat));
        r
    }
}

/// A whole number in decimal notation.
pub fn int_text(n: i64) -> (r: String)
    ensures
        r@ == signed_decimal(n as int),
{
    if n < 0 {
        let magnitude: u64 = (-(n + 1)) as u64 + 1;
        concat2("-", nat_text(magnitude).as_str())
    } else {
        nat_text(n as u64)
    }
}

proof fn lemma_cut_in_front(s: Seq<char>) -> (i: int)
    ensures
        0 <= i <= s.len(),
        trimmed_start(s) == s.subrange(i, s.len() as int),
        forall|k: int| 0 <= k < i ==> whitespace(#[trigger] s[k]),
        i < s.len() ==> !whitespace(s[i]),
    decreases s.len(),
{
    if s.len() > 0 && whitespace(s[0]) {
        let t = s.drop_first();
        let j = lemma_cut_in_front(t);
        assert(t.subrange(j, t.len() as int) =~= s.subrange(j + 1, s.len() as int));
        assert forall|k: int| 0 <= k < j + 1 implies whitespace(#[trigger] s[k]) by {
            if k > 0 {
                assert(t[k - 1] == s[k]);
            }
        }
        if j < t.len() {
            assert(t[j] == s[j + 1]);
        }
        j + 1
    } else {
        assert(s.subrange(0, s.len() as int) =~= s);
        0
    }
}

proof fn lemma_cut_behind(s: Seq<char>) -> (j: int)
    ensures
        0 <= j <= s.len(),
        trimmed_end(s) == s.subrange(0, j),
        forall|k: int| j <= k < s.len() ==> whitespace(#[trigger] s[k]),
        j > 0 ==> !whitespace(s[j - 1]),
    decreases s.len(),
{
    if s.len() > 0 && whitespace(s.last()) {
        let t = s.drop_last();
        let j = lemma_cut_behind(t);
        assert(t.subrange(0, j) =~= s.subrange(0, j));
        assert forall|k: int| j <= k < s.len() implies whitespace(#[trigger] s[k]) by {
            if k < t.len() {
                assert(t[k] == s[k]);
            }
        }
        if j > 0 {
            assert(t[j - 1] == s[j - 1]);
        }
        j
    } else {
        assert(s.subrange(0, s.len() as int) =~= s);
        s.len() as int
    }
}

/// What is left of a text without the whitespace around it is the part from its first character
/// that is none to its last; a text is blank where there is no such character.
pub proof fn law_trimming_takes_the_whitespace_around(s: Seq<char>) -> (cut: (int, int))
    ensures
        0 <= cut.0 <= cut.1 <= s.len(),
        trimmed(s) == s.subrange(cut.0, cut.1),
        forall|k: int| 0 <= k < cut.0 ==> whitespace(#[trigger] s[k]),
        forall|k: int| cut.1 <= k < s.len() ==> whitespace(#[trigger] s[k]),
        cut.0 < cut.1 ==> !whitespace(s[cut.0]) && !whitespace(s[cut.1 - 1]),
        blank(s) <==> forall|k: int| 0 <= k < s.len() ==> whitespace(#[trigger] s[k]),
{
    let i = lemma_cut_in_front(s);
    let t = trimmed_start(s);
    let j = lemma_cut_behind(t);
    assert(t.subrange(0, j) =~= s.subrange(i, i + j));
    assert forall|k: int| i + j <= k < s.len() implies whitespace(#[trigger] s[k]) by {
        assert(t[k - i] == s[k]);
    }
    if j > 0 {
        assert(t[j - 1] == s[i + j - 1]);
    }
    if blank(s) {
        assert forall|k: int| 0 <= k < s.len() implies whitespace(#[trigger] s[k]) by {
            assert(k < i || k >= i + j);
        }
    } else {
        assert(!whitespace(s[i]));
    }
    (i, i + j)
}

/// A text stands before another where it is the beginning of it, or where it has the lower code
/// point at the first place at which they differ.
pub proof fn law_texts_stand_in_dictionary_order(a: Seq<char>, b: Seq<char>, n: int)
    requires
        0 <= n <= a.len(),
        n <= b.len(),
        forall|i: int| 0 <= i < n ==> #[trigger] a[i] == b[i],
        n < a.len() && n < b.len() ==> a[n] != b[n],
    ensures
        n == b.len() ==> !precedes(a, b),
        n == a.len() && n < b.len() ==> precedes(a, b),
        n < a.len() && n < b.len() ==> (precedes(a, b) <==> a[n] < b[n]),
    decreases n,
{
    if n > 0 {
        let c = a.drop_first();
        let d = b.drop_first();
        assert(a[0] == b[0]);
        assert forall|i: int| 0 <= i < n - 1 implies #[trigger] c[i] == d[i] by {
            assert(a[i + 1] == b[i + 1]);
        }
        law_texts_stand_in_dictionary_order(c, d, n - 1);
    }
}

/// The number that a decimal notation stands for.
pub open spec fn counted(digits: Seq<char>) -> int
    decreases digits.len(),
{
    if digits.len() == 0 {
        0
    } else {
        counted(digits.drop_last()) * 10 + (digits.last() as int - '0' as int)
    }
}

/// The decimal notation of a number has digits only and stands for the number.
pub proof fn law_decimal_stands_for_its_number(n: nat)
    ensures
        counted(decimal(n)) == n,
        decimal(n).len() > 0,
        forall|i: int| 0 <= i < decimal(n).len() ==> '0' <= #[trigger] decimal(n)[i] <= '9',
    decreases n,
{
    if n < 10 {
        let s = decimal(n);
        assert(s.drop_last() =~= Seq::empty());
        assert(counted(s.drop_last()) == 0);
    } else {
        law_decimal_stands_for_its_number(n / 10);
        let s = decimal(n);
        assert(s.drop_last() =~= decimal(n / 10));
        assert forall|i: int| 0 <= i < s.len() implies '0' <= #[trigger] s[i] <= '9' by {
            if i < s.len() - 1 {
                assert(s[i] == decimal(n / 10)[i]);
            }
        }
    }
}

/// Joined texts stand one behind the other, with the separator between each two and nowhere else.
pub proof fn law_joined_has_separators_between(parts: Seq<Seq<char>>, last: Seq<char>, separator: Seq<char>)
    ensures
        joined(Seq::empty(), separator) == Seq::<char>::empty(),
        joined(seq![last], separator) == last,
        parts.len() > 0 ==> joined(parts.push(last), separator) == joined(parts, separator) + separator + last,
{
    assert(parts.push(last).drop_last() =~= parts);
    assert(seq![last][0] == last);
}

/// The text of a number below zero is that of the number above it with a sign before it.
pub proof fn law_sign_goes_before_the_number(n: int)
    ensures
        n >= 0 ==> signed_decimal(n) == decimal(n as nat),
        n < 0 ==> signed_decimal(n).len() == decimal((-n) as nat).len() + 1 && signed_decimal(n)[0] == '-'
            && signed_decimal(n).drop_first() == decimal((-n) as nat),
{
    reveal_strlit("-");
    if n < 0 {
        assert(signed_decimal(n).drop_first() =~= decimal((-n) as nat));
    }
}

} // verus!
