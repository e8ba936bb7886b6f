//! Text primitives over `Seq<char>` models.

use vstd::prelude::*;
use vstd::string::*;

verus! {

/// `String::push` appends one character.
pub assume_specification[ String::push ](s: &mut String, c: char)
    ensures
        final(s)@ == old(s)@.push(c),
;

/// The characters of each string.
pub open spec fn texts(v: Seq<String>) -> Seq<Seq<char>> {
    v.map_values(|s: String| s@)
}

pub open spec fn opt_text(o: Option<String>) -> Option<Seq<char>> {
    match o {
        Some(s) => Some(s@),
        None => None,
    }
}

pub broadcast proof fn lemma_texts_push(v: Seq<String>, s: String)
    ensures
        #[trigger] texts(v.push(s)) == texts(v).push(s@),
{
    assert(texts(v.push(s)) =~= texts(v).push(s@));
}

pub broadcast proof fn lemma_texts_empty(v: Seq<String>)
    requires
        v.len() == 0,
    ensures
        #[trigger] texts(v) == Seq::<Seq<char>>::empty(),
{
    assert(texts(v) =~= Seq::<Seq<char>>::empty());
}

/// A copy of an optional text.
pub fn copy_opt(o: &Option<String>) -> (r: Option<String>)
    ensures
        opt_text(r) == opt_text(*o),
{
    match o {
        Some(s) => Some(s.clone()),
        None => None,
    }
}

/// A copy of a list of texts.
pub fn copy_texts(v: &Vec<String>) -> (r: Vec<String>)
    ensures
        texts(r@) == texts(v@),
{
    let mut r: Vec<String> = Vec::new();
    let mut i: usize = 0;
    while i < v.len()
        invariant
            i <= v@.len(),
            texts(r@) == texts(v@).take(i as int),
        decreases v@.len() - i,
    {
        let s = v[i].clone();
        proof {
            lemma_texts_push(r@, s);
            assert(texts(v@).take(i + 1) =~= texts(v@).take(i as int).push(s@));
        }
        r.push(s);
        i += 1;
    }
    assert(texts(v@).take(v@.len() as int) =~= texts(v@));
    r
}

/// A copy of bytes.
pub fn copy_bytes(v: &Vec<u8>) -> (r: Vec<u8>)
    ensures
        r@ == v@,
{
    let mut r: Vec<u8> = Vec::new();
    let mut i: usize = 0;
    while i < v.len()
        invariant
            i <= v@.len(),
            r@ == v@.take(i as int),
        decreases v@.len() - i,
    {
        assert(v@.take(i + 1) =~= v@.take(i as int).push(v@[i as int]));
        r.push(v[i]);
        i += 1;
    }
    assert(v@.take(v@.len() as int) =~= v@);
    r
}

/// The text of an optional text, `default` where there is none.
pub open spec fn text_or(o: Option<Seq<char>>, default: Seq<char>) -> Seq<char> {
    match o {
        Some(s) => s,
        None => default,
    }
}

/// An optional text, `default` where there is none.
pub fn unwrap_text(o: Option<String>, default: &str) -> (r: String)
    ensures
        r@ == text_or(opt_text(o), default@),
{
    match o {
        Some(s) => s,
        None => owned(default),
    }
}

/// The characters of `s` as a vector.
pub fn chars_of(s: &str) -> (v: Vec<char>)
    ensures
        v@ == s@,
{
    let mut v: Vec<char> = Vec::new();
    for c in it: s.chars()
        invariant
            it.seq() == s@,
            v@ == s@.take(it.index()),
    {
        assert(s@.take(it.index() + 1) =~= s@.take(it.index()).push(c));
        v.push(c);
    }
    assert(s@.take(s@.len() as int) =~= s@);
    v
}

/// The string made of `v[from..to]`.
pub fn text_between(v: &Vec<char>, from: usize, to: usize) -> (s: String)
    requires
        from <= to <= v@.len(),
    ensures
        s@ == v@.subrange(from as int, to as int),
{
    let mut s = String::new();
    let mut i: usize = from;
    assert(v@.subrange(from as int, from as int) =~= Seq::<char>::empty());
    while i < to
        invariant
            from <= i <= to <= v@.len(),
            s@ == v@.subrange(from as int, i as int),
        decreases to - i,
    {
        assert(v@.subrange(from as int, i + 1) =~= v@.subrange(from as int, i as int).push(
            v@[i as int],
        ));
        s.push(v[i]);
        i += 1;
    }
    s
}

/// The string made of the characters of `v`.
pub fn text_of(v: &Vec<char>) -> (s: String)
    ensures
        s@ == v@,
{
    assert(v@.subrange(0, v@.len() as int) =~= v@);
    text_between(v, 0, v.len())
}

/// An owned copy of `s`.
pub fn owned(s: &str) -> (r: String)
    ensures
        r@ == s@,
{
    String::from_str(s)
}

/// `a` followed by `b`.
pub fn concat(a: &str, b: &str) -> (r: String)
    ensures
        r@ == a@ + b@,
{
    let mut r = owned(a);
    r.append(b);
    r
}

/// `a` followed by `b` and `c`.
pub fn concat3(a: &str, b: &str, c: &str) -> (r: String)
    ensures
        r@ == a@ + b@ + c@,
{
    let mut r = owned(a);
    r.append(b);
    r.append(c);
    r
}

fn same_chars(a: &Vec<char>, b: &Vec<char>) -> (r: bool)
    ensures
        r == (a@ == b@),
{
    if a.len() != b.len() {
        return false;
    }
    let mut i: usize = 0;
    while i < a.len()
        invariant
            i <= a@.len(),
            a@.len() == b@.len(),
            forall|j: int| 0 <= j < i ==> a@[j] == b@[j],
        decreases a@.len() - i,
    {
        if a[i] != b[i] {
            assert(a@[i as int] != b@[i as int]);
            return false;
        }
        i += 1;
    }
    assert(a@ =~= b@);
    true
}

/// Whether two strings hold the same characters.
pub fn same(a: &str, b: &str) -> (r: bool)
    ensures
        r == (a@ == b@),
{
    same_chars(&chars_of(a), &chars_of(b))
}

pub open spec fn contains_text(list: Seq<Seq<char>>, s: Seq<char>) -> bool {
    exists|i: int| 0 <= i < list.len() && list[i] == s
}

/// Whether one of `list` holds the characters of `s`.
pub fn text_in(list: &Vec<String>, s: &str) -> (r: bool)
    ensures
        r == contains_text(texts(list@), s@),
{
    let mut i: usize = 0;
    while i < list.len()
        invariant
            i <= list@.len(),
            forall|j: int| 0 <= j < i ==> texts(list@)[j] != s@,
        decreases list@.len() - i,
    {
        if same(list[i].as_str(), s) {
            assert(texts(list@)[i as int] == s@);
            return true;
        }
        i += 1;
    }
    assert(texts(list@).len() == list@.len());
    false
}

pub open spec fn has_prefix(s: Seq<char>, p: Seq<char>) -> bool {
    p.len() <= s.len() && s.subrange(0, p.len() as int) == p
}

pub open spec fn has_suffix(s: Seq<char>, p: Seq<char>) -> bool {
    p.len() <= s.len() && s.subrange(s.len() - p.len(), s.len() as int) == p
}

/// `p` occurs in `s` at position `i`.
pub open spec fn occurs_at(s: Seq<char>, p: Seq<char>, i: int) -> bool {
    0 <= i && i + p.len() <= s.len() && s.subrange(i, i + p.len()) == p
}

pub open spec fn has_infix(s: Seq<char>, p: Seq<char>) -> bool {
    exists|i: int| occurs_at(s, p, i)
}

/// Whether `p` occurs in `s` at position `at`.
pub fn matches_at(s: &Vec<char>, p: &Vec<char>, at: usize) -> (r: bool)
    ensures
        r == occurs_at(s@, p@, at as int),
{
    if p.len() > s.len() || at > s.len() - p.len() {
        return false;
    }
    let mut i: usize = 0;
    while i < p.len()
        invariant
            i <= p@.len(),
            at + p@.len() <= s.len(),
            forall|j: int| 0 <= j < i ==> s@[at + j] == p@[j],
        decreases p@.len() - i,
    {
        if s[at + i] != p[i] {
            assert(s@.subrange(at as int, at + p@.len())[i as int] != p@[i as int]);
            return false;
        }
        i += 1;
    }
    assert(s@.subrange(at as int, at + p@.len()) =~= p@);
    true
}

/// The first position from `from` on at which `p` occurs in `s`.
pub fn find_from(s: &Vec<char>, p: &Vec<char>, from: usize) -> (r: Option<usize>)
    ensures
        match r {
            Some(i) => from <= i && occurs_at(s@, p@, i as int) && forall|j: int|
                from <= j < i ==> !occurs_at(s@, p@, j),
            None => forall|j: int| from <= j ==> !occurs_at(s@, p@, j),
        },
{
    if p.len() > s.len() || from > s.len() - p.len() {
        return None;
    }
    let last: usize = s.len() - p.len();
    let mut i: usize = from;
    loop
        invariant
            from <= i <= last,
            last == s@.len() - p@.len(),
            forall|j: int| from <= j < i ==> !occurs_at(s@, p@, j),
        decreases last - i,
    {
        if matches_at(s, p, i) {
            return Some(i);
        }
        if i == last {
            return None;
        }
        i += 1;
    }
}

/// Whether `s` begins with `p`.
pub fn starts_with(s: &str, p: &str) -> (r: bool)
    ensures
        r == has_prefix(s@, p@),
{
    matches_at(&chars_of(s), &chars_of(p), 0)
}

/// Whether `c` is the first character of `s`.
pub fn starts_with_char(s: &str, c: char) -> (r: bool)
    ensures
        r == (s@.len() > 0 && s@[0] == c),
{
    let v = chars_of(s);
    v.len() > 0 && v[0] == c
}

/// Whether `s` ends with `p`.
pub fn ends_with(s: &str, p: &str) -> (r: bool)
    ensures
        r == has_suffix(s@, p@),
{
    let sv = chars_of(s);
    let pv = chars_of(p);
    if pv.len() > sv.len() {
        return false;
    }
    matches_at(&sv, &pv, sv.len() - pv.len())
}

/// Whether `p` occurs in `s`.
pub fn contains(s: &str, p: &str) -> (r: bool)
    ensures
        r == has_infix(s@, p@),
{
    match find_from(&chars_of(s), &chars_of(p), 0) {
        Some(i) => {
            assert(occurs_at(s@, p@, i as int));
            true
        },
        None => false,
    }
}

/// Whether the character `c` occurs in `s`.
pub fn contains_char(s: &str, c: char) -> (r: bool)
    ensures
        r == s@.contains(c),
{
    let v = chars_of(s);
    let mut i: usize = 0;
    while i < v.len()
        invariant
            v@ == s@,
            i <= v@.len(),
            forall|j: int| 0 <= j < i ==> v@[j] != c,
        decreases v@.len() - i,
    {
        if v[i] == c {
            assert(s@[i as int] == c);
            return true;
        }
        i += 1;
    }
    false
}

/// What follows the prefix `p` of `s`.
pub open spec fn after_prefix(s: Seq<char>, p: Seq<char>) -> Option<Seq<char>> {
    if has_prefix(s, p) {
        Some(s.skip(p.len() as int))
    } else {
        None
    }
}

pub fn strip_prefix(s: &str, p: &str) -> (r: Option<String>)
    ensures
        opt_text(r) == after_prefix(s@, p@),
{
    let sv = chars_of(s);
    let pv = chars_of(p);
    if matches_at(&sv, &pv, 0) {
        assert(s@.skip(p@.len() as int) =~= sv@.subrange(p@.len() as int, sv@.len() as int));
        Some(text_between(&sv, pv.len(), sv.len()))
    } else {
        None
    }
}

pub open spec fn is_first(s: Seq<char>, c: char, i: int) -> bool {
    0 <= i < s.len() && s[i] == c && forall|j: int| 0 <= j < i ==> s[j] != c
}

pub open spec fn is_last(s: Seq<char>, c: char, i: int) -> bool {
    0 <= i < s.len() && s[i] == c && forall|j: int| i < j < s.len() ==> s[j] != c
}

/// The parts before and after the first `c`.
pub open spec fn cut_first(s: Seq<char>, c: char) -> Option<(Seq<char>, Seq<char>)> {
    if s.contains(c) {
        let i = s.index_of_first(c)->0;
        Some((s.take(i), s.skip(i + 1)))
    } else {
        None
    }
}

/// The parts before and after the last `c`.
pub open spec fn cut_last(s: Seq<char>, c: char) -> Option<(Seq<char>, Seq<char>)> {
    if s.contains(c) {
        let i = s.index_of_last(c)->0;
        Some((s.take(i), s.skip(i + 1)))
    } else {
        None
    }
}

pub open spec fn pair_text(o: Option<(String, String)>) -> Option<(Seq<char>, Seq<char>)> {
    match o {
        Some((a, b)) => Some((a@, b@)),
        None => None,
    }
}

pub proof fn lemma_first_unique(s: Seq<char>, c: char, i: int)
    requires
        is_first(s, c, i),
    ensures
        s.contains(c),
        s.index_of_first(c) == Some(i),
{
    s.index_of_first_ensures(c);
    let k = s.index_of_first(c)->0;
    if k < i {
        assert(s[k] == c);
    }
}

proof fn lemma_last_unique(s: Seq<char>, c: char, i: int)
    requires
        is_last(s, c, i),
    ensures
        s.contains(c),
        s.index_of_last(c) == Some(i),
{
    s.index_of_last_ensures(c);
    let k = s.index_of_last(c)->0;
    if k > i {
        assert(s[k] == c);
    }
}

/// Splits `s` at the first `c`.
pub fn split_once(s: &str, c: char) -> (r: Option<(String, String)>)
    ensures
        pair_text(r) == cut_first(s@, c),
{
    let v = chars_of(s);
    let mut i: usize = 0;
    while i < v.len()
        invariant
            v@ == s@,
            i <= v@.len(),
            forall|j: int| 0 <= j < i ==> v@[j] != c,
        decreases v@.len() - i,
    {
        if v[i] == c {
            let a = text_between(&v, 0, i);
            let b = text_between(&v, i + 1, v.len());
            proof {
                lemma_first_unique(s@, c, i as int);
                assert(a@ =~= s@.take(i as int));
                assert(b@ =~= s@.skip(i + 1));
            }
            return Some((a, b));
        }
        i += 1;
    }
    None
}

/// Splits `s` at the last `c`.
pub fn rsplit_once(s: &str, c: char) -> (r: Option<(String, String)>)
    ensures
        pair_text(r) == cut_last(s@, c),
{
    let v = chars_of(s);
    let mut i: usize = v.len();
    while i > 0
        invariant
            v@ == s@,
            i <= v@.len(),
            forall|j: int| i <= j < v@.len() ==> v@[j] != c,
        decreases i,
    {
        i -= 1;
        if v[i] == c {
            let a = text_between(&v, 0, i);
            let b = text_between(&v, i + 1, v.len());
            proof {
                lemma_last_unique(s@, c, i as int);
                assert(a@ =~= s@.take(i as int));
                assert(b@ =~= s@.skip(i + 1));
            }
            return Some((a, b));
        }
    }
    None
}

/// The fields of `s` between the separators `c`; one more field than separators.
pub open spec fn fields(s: Seq<char>, c: char) -> Seq<Seq<char>>
    decreases s.len(),
{
    if s.len() == 0 {
        seq![Seq::<char>::empty()]
    } else {
        let rest = fields(s.drop_last(), c);
        if s.last() == c {
            rest.push(Seq::<char>::empty())
        } else {
            rest.drop_last().push(rest.last().push(s.last()))
        }
    }
}

pub proof fn lemma_fields_nonempty(s: Seq<char>, c: char)
    ensures
        fields(s, c).len() > 0,
    decreases s.len(),
{
    if s.len() > 0 {
        lemma_fields_nonempty(s.drop_last(), c);
    }
}

/// Splits `s` at every `c`.
pub fn split_char(s: &str, c: char) -> (r: Vec<String>)
    ensures
        texts(r@) == fields(s@, c),
        r@.len() > 0,
{
    let v = chars_of(s);
    let mut done: Vec<String> = Vec::new();
    let mut current = String::new();
    let mut i: usize = 0;
    proof {
        assert(s@.take(0).len() == 0);
        assert(texts(done@).push(current@) =~= fields(s@.take(0), c));
    }
    while i < v.len()
        invariant
            v@ == s@,
            i <= v@.len(),
            texts(done@).push(current@) == fields(s@.take(i as int), c),
        decreases v@.len() - i,
    {
        proof {
            assert(s@.take(i + 1).drop_last() =~= s@.take(i as int));
            assert(s@.take(i + 1).last() == v@[i as int]);
            let rest = fields(s@.take(i as int), c);
            assert(rest.drop_last() =~= texts(done@));
            assert(rest.last() == current@);
        }
        if v[i] == c {
            proof {
                lemma_texts_push(done@, current);
            }
            done.push(current);
            current = String::new();
            assert(current@ =~= Seq::<char>::empty());
        } else {
            current.push(v[i]);
        }
        i += 1;
    }
    assert(s@.take(s@.len() as int) =~= s@);
    proof {
        lemma_texts_push(done@, current);
    }
    done.push(current);
    done
}

/// Whether `c` has the Unicode `White_Space` property.
pub open spec fn white(c: char) -> bool {
    ||| '\u{0009}' <= c <= '\u{000D}'
    ||| c == '\u{0020}'
    ||| c == '\u{0085}'
    ||| c == '\u{00A0}'
    ||| c == '\u{1680}'
    ||| '\u{2000}' <= c <= '\u{200A}'
    ||| c == '\u{2028}'
    ||| c == '\u{2029}'
    ||| c == '\u{202F}'
    ||| c == '\u{205F}'
    ||| c == '\u{3000}'
}

pub fn is_white(c: char) -> (r: bool)
    ensures
        r == white(c),
{
    ('\u{0009}' <= c && c <= '\u{000D}') || c == '\u{0020}' || c == '\u{0085}' || c == '\u{00A0}'
        || c == '\u{1680}' || ('\u{2000}' <= c && c <= '\u{200A}') || c == '\u{2028}' || c
        == '\u{2029}' || c == '\u{202F}' || c == '\u{205F}' || c == '\u{3000}'
}

pub open spec fn trim_front(s: Seq<char>) -> Seq<char>
    decreases s.len(),
{
    if s.len() > 0 && white(s[0]) {
        trim_front(s.drop_first())
    } else {
        s
    }
}

pub open spec fn trim_back(s: Seq<char>) -> Seq<char>
    decreases s.len(),
{
    if s.len() > 0 && white(s.last()) {
        trim_back(s.drop_last())
    } else {
        s
    }
}

/// `s` without leading and trailing white space.
pub open spec fn trimmed(s: Seq<char>) -> Seq<char> {
    trim_back(trim_front(s))
}

fn front_of(v: &Vec<char>) -> (i: usize)
    ensures
        i <= v@.len(),
        trim_front(v@) == v@.skip(i as int),
{
    let mut i: usize = 0;
    assert(v@.skip(0) =~= v@);
    while i < v.len()
        invariant
            i <= v@.len(),
            trim_front(v@) == trim_front(v@.skip(i as int)),
        decreases v@.len() - i,
    {
        if !is_white(v[i]) {
            return i;
        }
        assert(v@.skip(i as int).drop_first() =~= v@.skip(i + 1));
        i += 1;
    }
    i
}

/// Removes leading white space.
pub fn trim_start(s: &str) -> (r: String)
    ensures
        r@ == trim_front(s@),
{
    let v = chars_of(s);
    let from = front_of(&v);
    assert(v@.skip(from as int) =~= v@.subrange(from as int, v@.len() as int));
    text_between(&v, from, v.len())
}

/// Removes leading and trailing white space.
pub fn trim(s: &str) -> (r: String)
    ensures
        r@ == trimmed(s@),
{
    let v = chars_of(s);
    let from = front_of(&v);
    let mut to: usize = v.len();
    assert(v@.skip(from as int) =~= v@.subrange(from as int, to as int));
    while to > from
        invariant
            v@ == s@,
            from <= to <= v@.len(),
            trimmed(v@) == trim_back(v@.subrange(from as int, to as int)),
        decreases to - from,
    {
        if !is_white(v[to - 1]) {
            return text_between(&v, from, to);
        }
        assert(v@.subrange(from as int, to as int).drop_last() =~= v@.subrange(
            from as int,
            to - 1,
        ));
        to -= 1;
    }
    text_between(&v, from, to)
}

/// Whether nothing but white space is in `s`.
pub fn is_blank(s: &str) -> (r: bool)
    ensures
        r == (trimmed(s@).len() == 0),
{
    trim(s).as_str().is_empty()
}

/// The ASCII lower-case form of `c`.
pub open spec fn lower(c: char) -> char {
    if 'A' <= c <= 'Z' {
        (c as u32 + 32) as char
    } else {
        c
    }
}

pub open spec fn ascii_lower(s: Seq<char>) -> Seq<char> {
    s.map_values(|c: char| lower(c))
}

pub fn lower_char(c: char) -> (r: char)
    ensures
        r == lower(c),
{
    if 'A' <= c && c <= 'Z' {
        ((c as u8) + 32) as char
    } else {
        c
    }
}

/// `s` with ASCII letters in lower case.
pub fn to_ascii_lowercase(s: &str) -> (r: String)
    ensures
        r@ == ascii_lower(s@),
{
    let v = chars_of(s);
    let mut r = String::new();
    let mut i: usize = 0;
    assert(ascii_lower(v@.take(0)) =~= Seq::<char>::empty());
    while i < v.len()
        invariant
            i <= v@.len(),
            r@ == ascii_lower(v@.take(i as int)),
        decreases v@.len() - i,
    {
        assert(ascii_lower(v@.take(i + 1)) =~= ascii_lower(v@.take(i as int)).push(lower(v@[i as int])));
        r.push(lower_char(v[i]));
        i += 1;
    }
    assert(v@.take(v@.len() as int) =~= v@);
    r
}

pub open spec fn digit_char(d: nat) -> char
    recommends
        d < 10,
{
    (48 + d) as char
}

/// The decimal digits of `n`, without leading zeros.
pub open spec fn decimal(n: nat) -> Seq<char>
    decreases n,
{
    if n < 10 {
        seq![digit_char(n)]
    } else {
        decimal(n / 10).push(digit_char(n % 10))
    }
}

/// `n` in decimal.
pub fn decimal_of(n: u64) -> (r: String)
    ensures
        r@ == decimal(n as nat),
    decreases n,
{
    let d: u8 = (n % 10) as u8;
    let c: char = (48 + d) as char;
    if n < 10 {
        let mut r = String::new();
        r.push(c);
        assert(r@ =~= decimal(n as nat));
        r
    } else {
        let mut r = decimal_of(n / 10);
        r.push(c);
        r
    }
}

/// A signed number in decimal.
pub open spec fn signed_decimal(n: int) -> Seq<char> {
    if n < 0 {
        seq!['-'] + decimal((-n) as nat)
    } else {
        decimal(n as nat)
    }
}

pub fn signed_decimal_of(n: i64) -> (r: String)
    ensures
        r@ == signed_decimal(n as int),
{
    if n < 0 {
        let magnitude: u64 = if n == i64::MIN {
            9223372036854775808u64
        } else {
            (-n) as u64
        };
        let mut r = String::new();
        r.push('-');
        let digits = decimal_of(magnitude);
        r.append(digits.as_str());
        assert(r@ =~= seq!['-'] + decimal(magnitude as nat));
        r
    } else {
        decimal_of(n as u64)
    }
}

pub open spec fn is_digit(c: char) -> bool {
    '0' <= c <= '9'
}

pub open spec fn all_digits(s: Seq<char>) -> bool {
    forall|i: int| 0 <= i < s.len() ==> is_digit(#[trigger] s[i])
}

/// The value of a digit string.
pub open spec fn digits_value(s: Seq<char>) -> nat
    decreases s.len(),
{
    if s.len() == 0 {
        0
    } else {
        digits_value(s.drop_last()) * 10 + (s.last() as u32 - 48) as nat
    }
}

/// The digits behind an optional plus sign.
pub open spec fn unsigned_digits(s: Seq<char>) -> Seq<char> {
    if s.len() > 0 && s[0] == '+' {
        s.drop_first()
    } else {
        s
    }
}

/// The number that `s` writes in decimal, where it is at most `max`.
pub open spec fn parsed_unsigned(s: Seq<char>, max: nat) -> Option<nat> {
    let d = unsigned_digits(s);
    if d.len() > 0 && all_digits(d) && digits_value(d) <= max {
        Some(digits_value(d))
    } else {
        None
    }
}

pub proof fn lemma_digits_value_grows(s: Seq<char>, i: int)
    requires
        0 <= i <= s.len(),
        all_digits(s),
    ensures
        digits_value(s.take(i)) <= digits_value(s),
    decreases s.len(),
{
    if i == s.len() {
        assert(s.take(i) =~= s);
    } else {
        assert(s.drop_last().take(i) =~= s.take(i));
        lemma_digits_value_grows(s.drop_last(), i);
    }
}

/// Reads an unsigned decimal number of at most `max`.
pub fn parse_unsigned(s: &str, max: u64) -> (r: Option<u64>)
    ensures
        match r {
            Some(n) => parsed_unsigned(s@, max as nat) == Some(n as nat),
            None => parsed_unsigned(s@, max as nat) is None,
        },
{
    let v = chars_of(s);
    let from: usize = if v.len() > 0 && v[0] == '+' {
        1
    } else {
        0
    };
    let ghost d = unsigned_digits(s@);
    proof {
        assert(d =~= v@.skip(from as int));
    }
    if from == v.len() {
        return None;
    }
    let mut value: u64 = 0;
    let mut i: usize = from;
    while i < v.len()
        invariant
            v@ == s@,
            from <= i <= v@.len(),
            from < v@.len(),
            d == v@.skip(from as int),
            d == unsigned_digits(s@),
            value <= max,
            value as nat == digits_value(d.take(i - from)),
            forall|j: int| from <= j < i ==> is_digit(v@[j]),
        decreases v@.len() - i,
    {
        let c = v[i];
        if !('0' <= c && c <= '9') {
            assert(!is_digit(d[i - from]));
            return None;
        }
        let digit: u64 = ((c as u8) - 48) as u64;
        let next: u128 = value as u128 * 10 + digit as u128;
        proof {
            assert(d.take(i - from + 1).drop_last() =~= d.take(i - from));
            assert(d.take(i - from + 1).last() == c);
        }
        if next > max as u128 {
            proof {
                if all_digits(d) {
                    lemma_digits_value_grows(d, i - from + 1);
                }
            }
            return None;
        }
        value = next as u64;
        i += 1;
    }
    proof {
        assert(d.take(d.len() as int) =~= d);
        assert forall|j: int| 0 <= j < d.len() implies is_digit(#[trigger] d[j]) by {
            assert(d[j] == v@[from + j]);
        }
    }
    Some(value)
}

/// Owned copies of texts.
pub fn own_all(parts: Vec<&str>) -> (r: Vec<String>)
    ensures
        r@.len() == parts@.len(),
        forall|i: int| 0 <= i < parts@.len() ==> #[trigger] texts(r@)[i] == parts@[i]@,
        texts(r@).len() == parts@.len(),
{
    let mut r: Vec<String> = Vec::new();
    let mut i: usize = 0;
    while i < parts.len()
        invariant
            i <= parts@.len(),
            r@.len() == i,
            forall|j: int| 0 <= j < i ==> (#[trigger] r@[j])@ == parts@[j]@,
        decreases parts@.len() - i,
    {
        r.push(owned(parts[i]));
        i += 1;
    }
    assert forall|i: int| 0 <= i < parts@.len() implies #[trigger] texts(r@)[i] == parts@[i]@ by {
        assert(r@[i]@ == parts@[i]@);
    }
    r
}

/// A line without a carriage return at its end.
pub open spec fn without_return(s: Seq<char>) -> Seq<char> {
    if s.len() > 0 && s.last() == '\r' {
        s.drop_last()
    } else {
        s
    }
}

/// The lines among newline-separated fields: all but the last end in a
/// newline, and what follows the last newline counts only if it is there.
pub open spec fn field_lines(f: Seq<Seq<char>>) -> Seq<Seq<char>> {
    if f.len() == 0 {
        Seq::empty()
    } else {
        f.drop_last().map_values(|l: Seq<char>| without_return(l)) + (if f.last().len() > 0 {
            seq![f.last()]
        } else {
            Seq::empty()
        })
    }
}

/// The lines of a text, ended by a newline or a carriage return with a newline.
pub open spec fn lines_of(s: Seq<char>) -> Seq<Seq<char>> {
    field_lines(fields(s, '\n'))
}

/// The lines of a text.
pub fn lines(s: &str) -> (r: Vec<String>)
    ensures
        texts(r@) == lines_of(s@),
{
    let parts = split_char(s, '\n');
    let ghost f = fields(s@, '\n');
    let ghost ended = f.drop_last().map_values(|l: Seq<char>| without_return(l));
    let mut r: Vec<String> = Vec::new();
    assert(f.len() == parts@.len());
    if parts.len() == 0 {
        assert(texts(r@) =~= lines_of(s@));
        return r;
    }
    let mut i: usize = 0;
    assert(texts(r@) =~= ended.take(0));
    while i < parts.len() - 1
        invariant
            parts@.len() > 0,
            i < parts@.len(),
            texts(parts@) == f,
            f.len() == parts@.len(),
            ended == f.drop_last().map_values(|l: Seq<char>| without_return(l)),
            texts(r@) == ended.take(i as int),
        decreases parts@.len() - i,
    {
        let v = chars_of(parts[i].as_str());
        assert(f[i as int] == parts@[i as int]@);
        assert(ended[i as int] == without_return(f[i as int]));
        let line = if v.len() > 0 && v[v.len() - 1] == '\r' {
            text_between(&v, 0, v.len() - 1)
        } else {
            parts[i].clone()
        };
        proof {
            assert(line@ =~= without_return(f[i as int]));
            lemma_texts_push(r@, line);
            assert(ended.take(i + 1) =~= ended.take(i as int).push(line@));
        }
        r.push(line);
        i += 1;
    }
    assert(ended.take(ended.len() as int) =~= ended);
    assert(f.last() == parts@[parts@.len() - 1]@);
    if parts[i].as_str().unicode_len() > 0 {
        let line = parts[i].clone();
        proof {
            lemma_texts_push(r@, line);
        }
        r.push(line);
        assert(texts(r@) =~= ended + seq![f.last()]);
    } else {
        assert(texts(r@) =~= ended + Seq::<Seq<char>>::empty());
    }
    r
}

/// A text without the occurrences of a character at its beginning.
pub open spec fn without_leading(s: Seq<char>, c: char) -> Seq<char>
    decreases s.len(),
{
    if s.len() > 0 && s[0] == c {
        without_leading(s.drop_first(), c)
    } else {
        s
    }
}

/// A text without the occurrences of a character at its end.
pub open spec fn without_trailing(s: Seq<char>, c: char) -> Seq<char>
    decreases s.len(),
{
    if s.len() > 0 && s.last() == c {
        without_trailing(s.drop_last(), c)
    } else {
        s
    }
}

/// A text without the occurrences of a character at both ends.
pub fn trim_matches(s: &str, c: char) -> (r: String)
    ensures
        r@ == without_trailing(without_leading(s@, c), c),
{
    let v = chars_of(s);
    let mut from: usize = 0;
    assert(s@.skip(0) =~= s@);
    while from < v.len() && v[from] == c
        invariant
            from <= v@.len(),
            v@ == s@,
            without_leading(s@, c) == without_leading(s@.skip(from as int), c),
        decreases v@.len() - from,
    {
        assert(s@.skip(from as int).drop_first() =~= s@.skip(from + 1));
        from += 1;
    }
    let ghost front = s@.skip(from as int);
    assert(without_leading(s@, c) == front);
    let mut to: usize = v.len();
    assert(s@.subrange(from as int, to as int) =~= front);
    while to > from && v[to - 1] == c
        invariant
            from <= to <= v@.len(),
            v@ == s@,
            without_trailing(front, c) == without_trailing(
                s@.subrange(from as int, to as int),
                c,
            ),
        decreases to - from,
    {
        let ghost t = s@.subrange(from as int, to as int);
        assert(t.last() == v@[to - 1]);
        assert(t.drop_last() =~= s@.subrange(from as int, to - 1));
        to -= 1;
    }
    let r = text_between(&v, from, to);
    proof {
        let t = s@.subrange(from as int, to as int);
        assert(r@ =~= t);
        if t.len() > 0 {
            assert(t.last() == v@[to - 1]);
        }
        assert(without_trailing(t, c) == t);
    }
    r
}

/// A text put into an ordered list, behind all that do not come after it.
pub open spec fn placed_text(sorted: Seq<Seq<char>>, s: Seq<char>) -> Seq<Seq<char>>
    decreases sorted.len(),
{
    if sorted.len() > 0 && text_less(s, sorted.last()) {
        placed_text(sorted.drop_last(), s).push(sorted.last())
    } else {
        sorted.push(s)
    }
}

/// Texts in order.
pub open spec fn sorted_texts(list: Seq<Seq<char>>) -> Seq<Seq<char>>
    decreases list.len(),
{
    if list.len() == 0 {
        Seq::empty()
    } else {
        placed_text(sorted_texts(list.drop_last()), list.last())
    }
}

fn place_text(sorted: &mut Vec<String>, s: String)
    ensures
        texts(final(sorted)@) == placed_text(texts(old(sorted)@), s@),
{
    let ghost views = texts(sorted@);
    let mut i: usize = sorted.len();
    assert(views.take(i as int) =~= views);
    assert(placed_text(views, s@) =~= placed_text(views.take(i as int), s@) + views.skip(
        i as int,
    ));
    while i > 0 && is_less(s.as_str(), sorted[i - 1].as_str())
        invariant
            i <= sorted@.len(),
            views == texts(sorted@),
            placed_text(views, s@) == placed_text(views.take(i as int), s@) + views.skip(i as int),
        decreases i,
    {
        proof {
            let t = views.take(i as int);
            assert(t.last() == sorted@[i - 1]@);
            assert(t.drop_last() =~= views.take(i - 1));
            assert(placed_text(t.drop_last(), s@).push(t.last()) + views.skip(i as int)
                =~= placed_text(views.take(i - 1), s@) + views.skip(i - 1));
        }
        i -= 1;
    }
    proof {
        let t = views.take(i as int);
        if i > 0 {
            assert(t.last() == sorted@[i - 1]@);
        }
        assert(placed_text(t, s@) == t.push(s@));
    }
    sorted.insert(i, s);
    assert(texts(sorted@) =~= views.take(i as int).push(s@) + views.skip(i as int));
}

/// Texts in order.
pub fn sort_texts(list: &Vec<String>) -> (r: Vec<String>)
    ensures
        texts(r@) == sorted_texts(texts(list@)),
{
    let ghost all = texts(list@);
    let mut r: Vec<String> = Vec::new();
    let mut i: usize = 0;
    assert(all.take(0).len() == 0);
    assert(texts(r@) =~= sorted_texts(all.take(0)));
    while i < list.len()
        invariant
            i <= list@.len(),
            all == texts(list@),
            texts(r@) == sorted_texts(all.take(i as int)),
        decreases list@.len() - i,
    {
        proof {
            assert(all.take(i + 1).drop_last() =~= all.take(i as int));
            assert(all.take(i + 1).last() == list@[i as int]@);
        }
        place_text(&mut r, list[i].clone());
        i += 1;
    }
    assert(all.take(all.len() as int) =~= all);
    r
}

/// A list without an item that equals the one before it.
pub open spec fn without_repeats(list: Seq<Seq<char>>) -> Seq<Seq<char>>
    decreases list.len(),
{
    if list.len() == 0 {
        Seq::empty()
    } else {
        let before = without_repeats(list.drop_last());
        if list.len() >= 2 && list[list.len() - 2] == list.last() {
            before
        } else {
            before.push(list.last())
        }
    }
}

/// A list without an item that equals the one before it.
pub fn dedup_texts(list: &Vec<String>) -> (r: Vec<String>)
    ensures
        texts(r@) == without_repeats(texts(list@)),
{
    let ghost all = texts(list@);
    let mut r: Vec<String> = Vec::new();
    let mut i: usize = 0;
    assert(all.take(0).len() == 0);
    assert(texts(r@) =~= without_repeats(all.take(0)));
    while i < list.len()
        invariant
            i <= list@.len(),
            all == texts(list@),
            texts(r@) == without_repeats(all.take(i as int)),
        decreases list@.len() - i,
    {
        proof {
            let next = all.take(i + 1);
            assert(next.drop_last() =~= all.take(i as int));
            assert(next.last() == list@[i as int]@);
            if i > 0 {
                assert(next[next.len() - 2] == list@[i - 1]@);
            }
        }
        if i == 0 || !same(list[i - 1].as_str(), list[i].as_str()) {
            let copy = list[i].clone();
            proof {
                lemma_texts_push(r@, copy);
            }
            r.push(copy);
        }
        i += 1;
    }
    assert(all.take(all.len() as int) =~= all);
    r
}

/// A number written in decimal reads back as itself.
pub proof fn law_decimal_reads_back(n: nat)
    ensures
        decimal(n).len() > 0,
        all_digits(decimal(n)),
        digits_value(decimal(n)) == n,
        n <= u64::MAX ==> parsed_unsigned(decimal(n), u64::MAX as nat) == Some(n),
    decreases n,
{
    let d = digit_char(n % 10);
    assert(d as u32 == 48 + n % 10);
    if n < 10 {
        assert(seq![d].drop_last() =~= Seq::<char>::empty());
        assert(digits_value(Seq::<char>::empty()) == 0);
    } else {
        law_decimal_reads_back(n / 10);
        assert(decimal(n).drop_last() =~= decimal(n / 10));
    }
    assert(is_digit(decimal(n)[0]));
}

/// The items joined with `sep` between them.
pub open spec fn joined(items: Seq<Seq<char>>, sep: Seq<char>) -> Seq<char>
    decreases items.len(),
{
    if items.len() == 0 {
        Seq::<char>::empty()
    } else if items.len() == 1 {
        items[0]
    } else {
        joined(items.drop_last(), sep) + sep + items.last()
    }
}

/// Joins `items` with `sep` between them.
pub fn join(items: &Vec<String>, sep: &str) -> (r: String)
    ensures
        r@ == joined(texts(items@), sep@),
{
    let mut r = String::new();
    let mut i: usize = 0;
    assert(texts(items@).take(0).len() == 0);
    while i < items.len()
        invariant
            i <= items@.len(),
            r@ == joined(texts(items@).take(i as int), sep@),
        decreases items@.len() - i,
    {
        proof {
            let next = texts(items@).take(i + 1);
            assert(next.drop_last() =~= texts(items@).take(i as int));
            assert(next.last() == items@[i as int]@);
        }
        if i > 0 {
            r.append(sep);
        }
        r.append(items[i].as_str());
        proof {
            if i == 0 {
                assert(r@ =~= items@[0]@);
            }
        }
        i += 1;
    }
    assert(texts(items@).take(items@.len() as int) =~= texts(items@));
    r
}

/// The non-empty runs of characters that are not white space.
pub open spec fn words(s: Seq<char>) -> Seq<Seq<char>>
    decreases s.len(),
{
    if s.len() == 0 {
        Seq::<Seq<char>>::empty()
    } else {
        let rest = words(s.drop_last());
        if white(s.last()) {
            rest
        } else if s.len() >= 2 && !white(s[s.len() - 2]) {
            rest.drop_last().push(rest.last().push(s.last()))
        } else {
            rest.push(seq![s.last()])
        }
    }
}

pub proof fn lemma_words_open(s: Seq<char>)
    requires
        s.len() > 0,
        !white(s.last()),
    ensures
        words(s).len() > 0,
        words(s).last().len() > 0,
{
}

/// Splits `s` at white space.
pub fn split_whitespace(s: &str) -> (r: Vec<String>)
    ensures
        texts(r@) == words(s@),
{
    let v = chars_of(s);
    let mut done: Vec<String> = Vec::new();
    let mut current = String::new();
    let mut open: bool = false;
    let mut i: usize = 0;
    proof {
        assert(s@.take(0).len() == 0);
        lemma_texts_empty(done@);
    }
    while i < v.len()
        invariant
            v@ == s@,
            i <= v@.len(),
            open == (i > 0 && !white(v@[i - 1])),
            open ==> words(s@.take(i as int)) == texts(done@).push(current@),
            !open ==> words(s@.take(i as int)) == texts(done@) && current@.len() == 0,
        decreases v@.len() - i,
    {
        let c = v[i];
        proof {
            let next = s@.take(i + 1);
            assert(next.drop_last() =~= s@.take(i as int));
            assert(next.last() == c);
            if open {
                assert(words(s@.take(i as int)).drop_last() =~= texts(done@));
            }
        }
        if is_white(c) {
            if open {
                proof {
                    lemma_texts_push(done@, current);
                }
                done.push(current);
                current = String::new();
                open = false;
            }
        } else {
            current.push(c);
            proof {
                if !open {
                    assert(current@ =~= seq![c]);
                }
            }
            open = true;
        }
        i += 1;
    }
    assert(s@.take(s@.len() as int) =~= s@);
    if open {
        proof {
            lemma_texts_push(done@, current);
        }
        done.push(current);
    }
    done
}

/// Every occurrence of `from`, found left to right without overlap, replaced by `to`.
pub open spec fn replaced(s: Seq<char>, from: Seq<char>, to: Seq<char>) -> Seq<char>
    decreases s.len(),
{
    if from.len() == 0 || s.len() < from.len() {
        s
    } else if has_prefix(s, from) {
        to + replaced(s.skip(from.len() as int), from, to)
    } else {
        seq![s[0]] + replaced(s.drop_first(), from, to)
    }
}

/// Replaces every occurrence of the non-empty text `from` by `to`.
pub fn replace(s: &str, from: &str, to: &str) -> (r: String)
    requires
        from@.len() > 0,
    ensures
        r@ == replaced(s@, from@, to@),
{
    let v = chars_of(s);
    let f = chars_of(from);
    let mut r = String::new();
    let mut i: usize = 0;
    assert(v@.skip(0) =~= v@);
    assert(r@ + replaced(v@.skip(0), from@, to@) =~= replaced(v@, from@, to@));
    while i < v.len()
        invariant
            v@ == s@,
            f@ == from@,
            from@.len() > 0,
            i <= v@.len(),
            r@ + replaced(v@.skip(i as int), from@, to@) == replaced(s@, from@, to@),
        decreases v@.len() - i,
    {
        let ghost rest = v@.skip(i as int);
        let ghost before = r@;
        if matches_at(&v, &f, i) {
            proof {
                assert(rest.subrange(0, f@.len() as int) =~= v@.subrange(i as int, i + f@.len()));
                assert(rest.skip(f@.len() as int) =~= v@.skip(i + f@.len()));
            }
            r.append(to);
            i += f.len();
            proof {
                assert(r@ + replaced(v@.skip(i as int), from@, to@) =~= before + (to@ + replaced(
                    v@.skip(i as int),
                    from@,
                    to@,
                )));
            }
        } else {
            proof {
                if has_prefix(rest, from@) {
                    assert(v@.subrange(i as int, i + f@.len()) =~= rest.subrange(0, f@.len() as int));
                }
                assert(rest.drop_first() =~= v@.skip(i + 1));
            }
            r.push(v[i]);
            i += 1;
            proof {
                let tail = replaced(v@.skip(i as int), from@, to@);
                if rest.len() < from@.len() {
                    assert(v@.skip(i as int).len() < from@.len());
                    assert(rest =~= seq![rest[0]] + v@.skip(i as int));
                }
                assert(before.push(rest[0]) + tail =~= before + (seq![rest[0]] + tail));
            }
        }
    }
    assert(v@.skip(i as int).len() == 0);
    assert(r@ + replaced(v@.skip(i as int), from@, to@) =~= r@);
    r
}

/// The first occurrence of `from` replaced by `to`.
pub open spec fn replaced_first(s: Seq<char>, from: Seq<char>, to: Seq<char>) -> Seq<char>
    decreases s.len(),
{
    if s.len() < from.len() {
        s
    } else if has_prefix(s, from) {
        to + s.skip(from.len() as int)
    } else if s.len() == 0 {
        s
    } else {
        seq![s[0]] + replaced_first(s.drop_first(), from, to)
    }
}

/// Replaces the first occurrence of `from` by `to`.
pub fn replace_first(s: &str, from: &str, to: &str) -> (r: String)
    ensures
        r@ == replaced_first(s@, from@, to@),
{
    let v = chars_of(s);
    let f = chars_of(from);
    let mut r = String::new();
    let mut i: usize = 0;
    assert(v@.skip(0) =~= v@);
    assert(r@ + replaced_first(v@.skip(0), from@, to@) =~= replaced_first(v@, from@, to@));
    while i < v.len()
        invariant
            v@ == s@,
            f@ == from@,
            i <= v@.len(),
            r@ + replaced_first(v@.skip(i as int), from@, to@) == replaced_first(s@, from@, to@),
        decreases v@.len() - i,
    {
        let ghost rest = v@.skip(i as int);
        let ghost before = r@;
        if matches_at(&v, &f, i) {
            proof {
                assert(rest.subrange(0, f@.len() as int) =~= v@.subrange(i as int, i + f@.len()));
                assert(rest.skip(f@.len() as int) =~= v@.subrange(i + f@.len(), v@.len() as int));
            }
            r.append(to);
            r.append(text_between(&v, i + f.len(), v.len()).as_str());
            proof {
                assert(r@ =~= before + (to@ + rest.skip(f@.len() as int)));
            }
            return r;
        }
        proof {
            if has_prefix(rest, from@) {
                assert(v@.subrange(i as int, i + f@.len()) =~= rest.subrange(0, f@.len() as int));
            }
            assert(rest.drop_first() =~= v@.skip(i + 1));
        }
        r.push(v[i]);
        i += 1;
        proof {
            let tail = replaced_first(v@.skip(i as int), from@, to@);
            if rest.len() < from@.len() {
                assert(rest =~= seq![rest[0]] + v@.skip(i as int));
            }
            assert(before.push(rest[0]) + tail =~= before + (seq![rest[0]] + tail));
        }
    }
    let empty: Vec<char> = Vec::new();
    if matches_at(&empty, &f, 0) {
        assert(v@.skip(i as int) =~= empty@);
        assert(v@.skip(i as int).skip(0) =~= empty@);
        r.append(to);
        assert(to@ + v@.skip(i as int).skip(0) =~= to@);
        return r;
    }
    assert(v@.skip(i as int) =~= empty@);
    assert(r@ + replaced_first(v@.skip(i as int), from@, to@) =~= r@);
    r
}

/// Every `from` character replaced by `to`.
pub open spec fn replaced_char(s: Seq<char>, from: char, to: char) -> Seq<char> {
    s.map_values(|c: char| if c == from { to } else { c })
}

pub fn replace_char(s: &str, from: char, to: char) -> (r: String)
    ensures
        r@ == replaced_char(s@, from, to),
{
    let v = chars_of(s);
    let mut r = String::new();
    let mut i: usize = 0;
    assert(replaced_char(v@.take(0), from, to) =~= Seq::<char>::empty());
    while i < v.len()
        invariant
            i <= v@.len(),
            r@ == replaced_char(v@.take(i as int), from, to),
        decreases v@.len() - i,
    {
        assert(replaced_char(v@.take(i + 1), from, to) =~= replaced_char(
            v@.take(i as int),
            from,
            to,
        ).push(if v@[i as int] == from { to } else { v@[i as int] }));
        r.push(if v[i] == from { to } else { v[i] });
        i += 1;
    }
    assert(v@.take(v@.len() as int) =~= v@);
    r
}

/// `a` before `b` in the order of their characters.
pub open spec fn text_less(a: Seq<char>, b: Seq<char>) -> bool
    decreases a.len(),
{
    if b.len() == 0 {
        false
    } else if a.len() == 0 {
        true
    } else if a[0] != b[0] {
        a[0] < b[0]
    } else {
        text_less(a.drop_first(), b.drop_first())
    }
}

/// Whether `a` comes before `b`.
pub fn is_less(a: &str, b: &str) -> (r: bool)
    ensures
        r == text_less(a@, b@),
{
    let x = chars_of(a);
    let y = chars_of(b);
    let mut i: usize = 0;
    assert(x@.skip(0) =~= x@);
    assert(y@.skip(0) =~= y@);
    loop
        invariant
            x@ == a@,
            y@ == b@,
            i <= x@.len(),
            i <= y@.len(),
            text_less(a@, b@) == text_less(x@.skip(i as int), y@.skip(i as int)),
        decreases x@.len() - i,
    {
        if i == y.len() {
            return false;
        }
        if i == x.len() {
            return true;
        }
        if x[i] != y[i] {
            return x[i] < y[i];
        }
        assert(x@.skip(i as int).drop_first() =~= x@.skip(i + 1));
        assert(y@.skip(i as int).drop_first() =~= y@.skip(i + 1));
        i += 1;
    }
}

/// The order of texts is irreflexive and total.
pub proof fn law_text_order_total(a: Seq<char>, b: Seq<char>)
    ensures
        text_less(a, b) || text_less(b, a) || a == b,
        !(text_less(a, b) && text_less(b, a)),
        !text_less(a, a),
    decreases a.len(),
{
    if a.len() > 0 && b.len() > 0 {
        law_text_order_total(a.drop_first(), b.drop_first());
        if a[0] == b[0] {
            if a.drop_first() == b.drop_first() {
                assert(a =~= seq![a[0]] + a.drop_first());
                assert(b =~= seq![b[0]] + b.drop_first());
            }
        } else {
            assert(a[0] < b[0] || b[0] < a[0]);
        }
    } else if a.len() == 0 && b.len() == 0 {
        assert(a =~= b);
    }
    if a.len() > 0 {
        law_text_order_total(a.drop_first(), a.drop_first());
    }
}

/// The order of texts is transitive.
pub proof fn law_text_order_transitive(a: Seq<char>, b: Seq<char>, c: Seq<char>)
    requires
        text_less(a, b),
        text_less(b, c),
    ensures
        text_less(a, c),
    decreases a.len(),
{
    if a.len() > 0 && b.len() > 0 && c.len() > 0 && a[0] == b[0] && b[0] == c[0] {
        law_text_order_transitive(a.drop_first(), b.drop_first(), c.drop_first());
    }
}

/// How many bytes a character takes in UTF-8.
pub open spec fn utf8_width(c: char) -> nat {
    if '\u{80}' > c {
        1
    } else if '\u{800}' > c {
        2
    } else if '\u{10000}' > c {
        3
    } else {
        4
    }
}

/// How many bytes a text takes in UTF-8.
pub open spec fn utf8_length(s: Seq<char>) -> nat
    decreases s.len(),
{
    if s.len() == 0 {
        0
    } else {
        utf8_length(s.drop_last()) + utf8_width(s.last())
    }
}

/// The first `k` characters of a text take exactly so many bytes.
pub open spec fn cuts_at(s: Seq<char>, bytes: nat, k: int) -> bool {
    0 <= k <= s.len() && utf8_length(s.take(k)) == bytes
}

/// The first so many bytes of a text; nothing where it is too short for that or
/// a character is in the way.
pub open spec fn head(s: Seq<char>, bytes: nat) -> Option<Seq<char>> {
    if exists|k: int| cuts_at(s, bytes, k) {
        Some(s.take(choose|k: int| cuts_at(s, bytes, k)))
    } else {
        None
    }
}

/// A text cut down to so many bytes; nothing where a character is in the way.
pub open spec fn cut(s: Seq<char>, bytes: nat) -> Option<Seq<char>> {
    if utf8_length(s) <= bytes {
        Some(s)
    } else {
        head(s, bytes)
    }
}

fn width_of(c: char) -> (r: usize)
    ensures
        r == utf8_width(c),
{
    if '\u{80}' > c {
        1
    } else if '\u{800}' > c {
        2
    } else if '\u{10000}' > c {
        3
    } else {
        4
    }
}

proof fn lemma_utf8_length_grows(s: Seq<char>, i: int, j: int)
    requires
        0 <= i < j <= s.len(),
    ensures
        utf8_length(s.take(i)) < utf8_length(s.take(j)),
    decreases j,
{
    assert(s.take(j).drop_last() =~= s.take(j - 1));
    if i < j - 1 {
        lemma_utf8_length_grows(s, i, j - 1);
    }
}

/// Texts that begin with `k` characters of so many bytes are cut there.
pub proof fn lemma_head(s: Seq<char>, bytes: nat, k: int)
    requires
        cuts_at(s, bytes, k),
    ensures
        head(s, bytes) == Some(s.take(k)),
{
    let j = choose|j: int| cuts_at(s, bytes, j);
    assert(cuts_at(s, bytes, j));
    if j < k {
        lemma_utf8_length_grows(s, j, k);
    } else if k < j {
        lemma_utf8_length_grows(s, k, j);
    }
}

/// A text of ASCII characters takes a byte for each.
pub proof fn lemma_ascii_length(s: Seq<char>)
    requires
        forall|i: int| 0 <= i < s.len() ==> #[trigger] s[i] <= '\u{7f}',
    ensures
        utf8_length(s) == s.len(),
    decreases s.len(),
{
    if s.len() > 0 {
        assert(s[s.len() - 1] <= '\u{7f}');
        lemma_ascii_length(s.drop_last());
    }
}

/// How many characters of a text fit into so many bytes, and how many bytes
/// are left.
fn fitting(v: &Vec<char>, bytes: usize) -> (r: (usize, usize))
    ensures
        r.0 <= v@.len(),
        r.1 <= bytes,
        utf8_length(v@.take(r.0 as int)) == bytes - r.1,
        r.0 < v@.len() ==> utf8_length(v@.take(r.0 + 1)) > bytes,
{
    let mut left: usize = bytes;
    let mut i: usize = 0;
    assert(v@.take(0) =~= Seq::<char>::empty());
    while i < v.len()
        invariant
            i <= v@.len(),
            left <= bytes,
            utf8_length(v@.take(i as int)) == bytes - left,
        decreases v@.len() - i,
    {
        let width = width_of(v[i]);
        proof {
            assert(v@.take(i + 1).drop_last() =~= v@.take(i as int));
            assert(v@.take(i + 1).last() == v@[i as int]);
        }
        if width > left {
            return (i, left);
        }
        left -= width;
        i += 1;
    }
    (i, left)
}

proof fn lemma_no_head(s: Seq<char>, bytes: nat, i: int)
    requires
        0 <= i <= s.len(),
        utf8_length(s.take(i)) < bytes,
        i < s.len() ==> utf8_length(s.take(i + 1)) > bytes,
    ensures
        head(s, bytes) is None,
{
    assert forall|k: int| !#[trigger] cuts_at(s, bytes, k) by {
        if 0 <= k < i {
            lemma_utf8_length_grows(s, k, i);
        } else if i + 1 < k <= s.len() {
            lemma_utf8_length_grows(s, i + 1, k);
        }
    }
}

/// How many characters the first so many bytes of a text hold.
pub fn head_length(s: &str, bytes: usize) -> (r: Option<usize>)
    ensures
        match r {
            Some(k) => cuts_at(s@, bytes as nat, k as int) && head(s@, bytes as nat) == Some(
                s@.take(k as int),
            ),
            None => head(s@, bytes as nat) is None,
        },
{
    let v = chars_of(s);
    let (i, left) = fitting(&v, bytes);
    if left == 0 {
        proof {
            lemma_head(s@, bytes as nat, i as int);
        }
        Some(i)
    } else {
        proof {
            lemma_no_head(s@, bytes as nat, i as int);
        }
        None
    }
}

/// A text cut down to so many bytes, where that falls between two characters.
pub fn cut_text(s: &str, bytes: usize) -> (r: Option<String>)
    ensures
        opt_text(r) == cut(s@, bytes as nat),
{
    let v = chars_of(s);
    let (i, left) = fitting(&v, bytes);
    proof {
        assert(s@.take(s@.len() as int) =~= s@);
        if i + 1 < s@.len() {
            lemma_utf8_length_grows(s@, i + 1, s@.len() as int);
        }
    }
    if i == v.len() {
        return Some(owned(s));
    }
    if left == 0 {
        proof {
            lemma_head(s@, bytes as nat, i as int);
            assert(s@.take(i as int) =~= s@.subrange(0, i as int));
        }
        Some(text_between(&v, 0, i))
    } else {
        proof {
            lemma_no_head(s@, bytes as nat, i as int);
        }
        None
    }
}

} // verus!
