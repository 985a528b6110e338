//! Character-level text model: whitespace, ASCII case mapping, substring
//! search, UTF-8 byte lengths and line splitting, each stated over
//! `Seq<char>` and implemented over `Vec<char>`.
use vstd::prelude::*;
use vstd::utf8::encode_utf8;

verus! {

// ---------------------------------------------------------------------------
// Whitespace and trimming
// ---------------------------------------------------------------------------

/// The Unicode `White_Space` property, which is what `char::is_whitespace` tests.
pub open spec fn is_ws(c: char) -> bool {
    let u = c as u32;
    ||| 0x9 <= u <= 0xD
    ||| u == 0x20
    ||| u == 0x85
    ||| u == 0xA0
    ||| u == 0x1680
    ||| 0x2000 <= u <= 0x200A
    ||| u == 0x2028
    ||| u == 0x2029
    ||| u == 0x202F
    ||| u == 0x205F
    ||| u == 0x3000
}

/// Number of whitespace characters at the start of `s`.
pub open spec fn lead_ws(s: Seq<char>) -> nat
    decreases s.len(),
{
    if s.len() > 0 && is_ws(s[0]) {
        1 + lead_ws(s.drop_first())
    } else {
        0
    }
}

/// Number of whitespace characters at the end of `s`.
pub open spec fn trail_ws(s: Seq<char>) -> nat
    decreases s.len(),
{
    if s.len() > 0 && is_ws(s.last()) {
        1 + trail_ws(s.drop_last())
    } else {
        0
    }
}

pub open spec fn trim_start(s: Seq<char>) -> Seq<char> {
    s.skip(lead_ws(s) as int)
}

pub open spec fn trim_end(s: Seq<char>) -> Seq<char> {
    s.take(s.len() - trail_ws(s))
}

/// `str::trim`: whitespace removed at both ends.
pub open spec fn trim(s: Seq<char>) -> Seq<char> {
    trim_end(trim_start(s))
}

pub proof fn lemma_lead_ws(s: Seq<char>, k: int)
    requires
        0 <= k <= s.len(),
        forall|i: int| 0 <= i < k ==> is_ws(#[trigger] s[i]),
        k == s.len() || !is_ws(s[k]),
    ensures
        lead_ws(s) == k,
    decreases k,
{
    if k > 0 {
        let t = s.drop_first();
        assert forall|i: int| 0 <= i < k - 1 implies is_ws(#[trigger] t[i]) by {
            assert(t[i] == s[i + 1]);
        }
        if k - 1 < t.len() {
            assert(t[k - 1] == s[k]);
        }
        lemma_lead_ws(t, k - 1);
    }
}

pub proof fn lemma_trail_ws(s: Seq<char>, k: int)
    requires
        0 <= k <= s.len(),
        forall|i: int| s.len() - k <= i < s.len() ==> is_ws(#[trigger] s[i]),
        k == s.len() || !is_ws(s[s.len() - k - 1]),
    ensures
        trail_ws(s) == k,
    decreases k,
{
    if k > 0 {
        let t = s.drop_last();
        assert forall|i: int| t.len() - (k - 1) <= i < t.len() implies is_ws(#[trigger] t[i]) by {
            assert(t[i] == s[i]);
        }
        if k - 1 < t.len() {
            assert(t[t.len() - (k - 1) - 1] == s[s.len() - k - 1]);
        }
        assert(is_ws(s[s.len() - 1]));
        lemma_trail_ws(t, k - 1);
    }
}

proof fn lemma_lead_ws_stops(s: Seq<char>)
    ensures
        lead_ws(s) <= s.len(),
        lead_ws(s) < s.len() ==> !is_ws(s[lead_ws(s) as int]),
    decreases s.len(),
{
    if s.len() > 0 && is_ws(s[0]) {
        lemma_lead_ws_stops(s.drop_first());
        if lead_ws(s) < s.len() {
            assert(s.drop_first()[lead_ws(s.drop_first()) as int] == s[lead_ws(s) as int]);
        }
    }
}

proof fn lemma_trail_ws_stops(s: Seq<char>)
    ensures
        trail_ws(s) <= s.len(),
        trail_ws(s) < s.len() ==> !is_ws(s[s.len() - trail_ws(s) - 1]),
    decreases s.len(),
{
    if s.len() > 0 && is_ws(s.last()) {
        lemma_trail_ws_stops(s.drop_last());
        if trail_ws(s) < s.len() {
            let t = s.drop_last();
            assert(t[t.len() - trail_ws(t) - 1] == s[s.len() - trail_ws(s) - 1]);
        }
    }
}

/// A trimmed text neither starts nor ends with whitespace.
pub proof fn lemma_trim_edges(s: Seq<char>)
    ensures
        trim(s).len() > 0 ==> !is_ws(trim(s)[0]) && !is_ws(trim(s).last()),
        trim(s).len() <= s.len(),
{
    lemma_lead_ws_stops(s);
    let a = trim_start(s);
    lemma_trail_ws_stops(a);
    if trim(s).len() > 0 {
        assert(trim(s)[0] == s[lead_ws(s) as int]);
        assert(trim(s).last() == a[a.len() - trail_ws(a) - 1]);
    }
}

pub fn is_ws_char(c: char) -> (r: bool)
    ensures
        r == is_ws(c),
{
    let u: u32 = c as u32;
    (0x9 <= u && u <= 0xD) || u == 0x20 || u == 0x85 || u == 0xA0 || u == 0x1680 || (0x2000 <= u
        && u <= 0x200A) || u == 0x2028 || u == 0x2029 || u == 0x202F || u == 0x205F || u == 0x3000
}

/// Bounds of the trimmed part of `s`: `s[a..b]` is `trim(s)`.
pub fn trim_range(s: &Vec<char>) -> (r: (usize, usize))
    ensures
        r.0 <= r.1 <= s.len(),
        r.0 == lead_ws(s@),
        s@.subrange(r.0 as int, r.1 as int) == trim(s@),
        s@.skip(r.0 as int) == trim_start(s@),
{
    let n = s.len();
    let mut a: usize = 0;
    while a < n && is_ws_char(s[a])
        invariant
            a <= n,
            n == s.len(),
            forall|i: int| 0 <= i < a ==> is_ws(#[trigger] s@[i]),
        decreases n - a,
    {
        a = a + 1;
    }
    proof {
        lemma_lead_ws(s@, a as int);
    }
    let mut b: usize = n;
    while b > a && is_ws_char(s[b - 1])
        invariant
            a <= b <= n,
            n == s.len(),
            forall|i: int| b <= i < n ==> is_ws(#[trigger] s@[i]),
        decreases b,
    {
        b = b - 1;
    }
    proof {
        let t = s@.skip(a as int);
        assert forall|i: int| t.len() - (n - b) <= i < t.len() implies is_ws(#[trigger] t[i]) by {
            assert(t[i] == s@[i + a]);
        }
        if n - b < t.len() {
            assert(t[t.len() - (n - b) - 1] == s@[b - 1]);
        }
        lemma_trail_ws(t, (n - b) as int);
        assert(t.take(t.len() - (n - b)) =~= s@.subrange(a as int, b as int));
    }
    (a, b)
}

/// Copy of `s[a..b]`.
pub fn sub_chars(s: &Vec<char>, a: usize, b: usize) -> (v: Vec<char>)
    requires
        a <= b <= s.len(),
    ensures
        v@ == s@.subrange(a as int, b as int),
{
    let mut v: Vec<char> = Vec::new();
    let mut i = a;
    while i < b
        invariant
            a <= i <= b <= s.len(),
            v@ == s@.subrange(a as int, i as int),
        decreases b - i,
    {
        v.push(s[i]);
        i = i + 1;
    }
    v
}

/// The characters of `s`, trimmed.
pub fn trimmed(s: &Vec<char>) -> (v: Vec<char>)
    ensures
        v@ == trim(s@),
{
    let (a, b) = trim_range(s);
    sub_chars(s, a, b)
}

/// Length of the longest prefix of `s` whose characters satisfy `p`.
pub open spec fn run_len(s: Seq<char>, p: spec_fn(char) -> bool) -> nat
    decreases s.len(),
{
    if s.len() > 0 && p(s[0]) {
        1 + run_len(s.drop_first(), p)
    } else {
        0
    }
}

pub proof fn lemma_run_len(s: Seq<char>, p: spec_fn(char) -> bool, k: int)
    requires
        0 <= k <= s.len(),
        forall|i: int| 0 <= i < k ==> p(#[trigger] s[i]),
        k == s.len() || !p(s[k]),
    ensures
        run_len(s, p) == k,
    decreases k,
{
    if k > 0 {
        let t = s.drop_first();
        assert forall|i: int| 0 <= i < k - 1 implies p(#[trigger] t[i]) by {
            assert(t[i] == s[i + 1]);
        }
        if k - 1 < t.len() {
            assert(t[k - 1] == s[k]);
        }
        lemma_run_len(t, p, k - 1);
    }
}

// ---------------------------------------------------------------------------
// ASCII case mapping
// ---------------------------------------------------------------------------

pub open spec fn lower_char(c: char) -> char {
    if 'A' <= c <= 'Z' {
        ((c as u32) + 32) as char
    } else {
        c
    }
}

pub open spec fn upper_char(c: char) -> char {
    if 'a' <= c <= 'z' {
        ((c as u32) - 32) as char
    } else {
        c
    }
}

/// `str::to_ascii_lowercase`.
pub open spec fn lower(s: Seq<char>) -> Seq<char> {
    s.map_values(|c: char| lower_char(c))
}

/// `str::to_ascii_uppercase`.
pub open spec fn upper(s: Seq<char>) -> Seq<char> {
    s.map_values(|c: char| upper_char(c))
}

pub fn to_lower(s: &Vec<char>) -> (v: Vec<char>)
    ensures
        v@ == lower(s@),
{
    let mut v: Vec<char> = Vec::new();
    let mut i: usize = 0;
    while i < s.len()
        invariant
            i <= s.len(),
            v@ == lower(s@.take(i as int)),
        decreases s.len() - i,
    {
        let c = s[i];
        let d = if 'A' <= c && c <= 'Z' {
            let b: u8 = c as u8;
            (b + 32) as char
        } else {
            c
        };
        v.push(d);
        assert(lower(s@.take(i + 1)) =~= lower(s@.take(i as int)).push(lower_char(c)));
        i = i + 1;
    }
    assert(s@.take(s.len() as int) =~= s@);
    v
}

pub fn to_upper(s: &Vec<char>) -> (v: Vec<char>)
    ensures
        v@ == upper(s@),
{
    let mut v: Vec<char> = Vec::new();
    let mut i: usize = 0;
    while i < s.len()
        invariant
            i <= s.len(),
            v@ == upper(s@.take(i as int)),
        decreases s.len() - i,
    {
        let c = s[i];
        let d = if 'a' <= c && c <= 'z' {
            let b: u8 = c as u8;
            (b - 32) as char
        } else {
            c
        };
        v.push(d);
        assert(upper(s@.take(i + 1)) =~= upper(s@.take(i as int)).push(upper_char(c)));
        i = i + 1;
    }
    assert(s@.take(s.len() as int) =~= s@);
    v
}

// ---------------------------------------------------------------------------
// Substring search
// ---------------------------------------------------------------------------

/// `n` occurs in `h` starting at character `i`.
pub open spec fn occurs_at(h: Seq<char>, n: Seq<char>, i: int) -> bool {
    0 <= i && i + n.len() <= h.len() && h.subrange(i, i + n.len()) == n
}

/// `str::contains`.
pub open spec fn contains(h: Seq<char>, n: Seq<char>) -> bool {
    exists|i: int| occurs_at(h, n, i)
}

pub open spec fn find_from(h: Seq<char>, n: Seq<char>, i: nat) -> Option<nat>
    decreases h.len() + 1 - i,
{
    if i + n.len() > h.len() {
        None
    } else if occurs_at(h, n, i as int) {
        Some(i)
    } else {
        find_from(h, n, i + 1)
    }
}

/// `str::find`, counted in characters: the first position where `n` occurs.
pub open spec fn find(h: Seq<char>, n: Seq<char>) -> Option<nat> {
    find_from(h, n, 0)
}

pub open spec fn starts_with(s: Seq<char>, p: Seq<char>) -> bool {
    p.len() <= s.len() && s.take(p.len() as int) == p
}

pub open spec fn ends_with(s: Seq<char>, p: Seq<char>) -> bool {
    p.len() <= s.len() && s.skip(s.len() - p.len()) == p
}

pub proof fn lemma_find_from(h: Seq<char>, n: Seq<char>, i: nat)
    ensures
        match find_from(h, n, i) {
            Some(k) => i <= k && occurs_at(h, n, k as int) && forall|j: int|
                i <= j < k ==> !occurs_at(h, n, j),
            None => forall|j: int| i <= j ==> !occurs_at(h, n, j),
        },
    decreases h.len() + 1 - i,
{
    if i + n.len() > h.len() {
    } else if occurs_at(h, n, i as int) {
    } else {
        lemma_find_from(h, n, i + 1);
    }
}

/// The first occurrence, characterised without recursion.
pub proof fn lemma_find(h: Seq<char>, n: Seq<char>)
    ensures
        match find(h, n) {
            Some(k) => occurs_at(h, n, k as int) && forall|j: int|
                0 <= j < k ==> !occurs_at(h, n, j),
            None => forall|j: int| !occurs_at(h, n, j),
        },
        find(h, n) is Some <==> contains(h, n),
{
    lemma_find_from(h, n, 0);
    if find(h, n) is None {
        assert forall|j: int| !occurs_at(h, n, j) by {
            if j >= 0 {
            }
        }
    }
}

proof fn lemma_find_unique(h: Seq<char>, n: Seq<char>, k: int)
    requires
        0 <= k,
        occurs_at(h, n, k),
        forall|j: int| 0 <= j < k ==> !occurs_at(h, n, j),
    ensures
        find(h, n) == Some(k as nat),
{
    lemma_find(h, n);
    match find(h, n) {
        Some(k2) => {
            if k2 < k {
            } else if k < k2 {
            }
        },
        None => {},
    }
}

/// Whether `n` occurs in `h` at position `i`.
pub fn matches_at(h: &Vec<char>, n: &Vec<char>, i: usize) -> (r: bool)
    requires
        i + n.len() <= h.len(),
    ensures
        r == occurs_at(h@, n@, i as int),
{
    let mut j: usize = 0;
    while j < n.len()
        invariant
            j <= n.len(),
            i + n.len() <= h.len(),
            forall|k: int| 0 <= k < j ==> h@[i + k] == n@[k],
        decreases n.len() - j,
    {
        if h[i + j] != n[j] {
            assert(h@.subrange(i as int, i + n.len())[j as int] != n@[j as int]);
            return false;
        }
        j = j + 1;
    }
    assert(h@.subrange(i as int, i + n.len()) =~= n@);
    true
}

/// First character position of `n` in `h`.
pub fn find_chars(h: &Vec<char>, n: &Vec<char>) -> (r: Option<usize>)
    ensures
        r matches Some(k) ==> find(h@, n@) == Some(k as nat),
        r is None ==> find(h@, n@) is None,
{
    if n.len() > h.len() {
        proof {
            lemma_find(h@, n@);
        }
        return None;
    }
    if n.len() == 0 {
        proof {
            assert(h@.subrange(0, 0) =~= n@);
            lemma_find_unique(h@, n@, 0);
        }
        return Some(0);
    }
    let last = h.len() - n.len();
    let mut i: usize = 0;
    while i <= last
        invariant
            last == h.len() - n.len(),
            1 <= n.len() <= h.len(),
            i <= last + 1,
            forall|j: int| 0 <= j < i ==> !occurs_at(h@, n@, j),
        decreases last + 1 - i,
    {
        if matches_at(h, n, i) {
            proof {
                lemma_find_unique(h@, n@, i as int);
            }
            return Some(i);
        }
        i = i + 1;
    }
    proof {
        lemma_find(h@, n@);
        assert forall|j: int| !occurs_at(h@, n@, j) by {
            if 0 <= j && j < i {
            }
        }
    }
    None
}

/// The characters of a string slice.
pub fn chars_of(s: &str) -> (v: Vec<char>)
    ensures
        v@ == s@,
{
    let mut v: Vec<char> = Vec::new();
    for c in it: s.chars()
        invariant
            v@ == it.seq().take(it.index() as int),
            it.seq() == s@,
    {
        v.push(c);
    }
    v
}

/// `h` contains the text `needle`.
pub fn has_text(h: &Vec<char>, needle: &str) -> (r: bool)
    ensures
        r == contains(h@, needle@),
{
    let n = chars_of(needle);
    let f = find_chars(h, &n);
    proof {
        lemma_find(h@, n@);
    }
    f.is_some()
}

/// `h` contains the character `c`.
pub fn has_char(h: &Vec<char>, c: char) -> (r: bool)
    ensures
        r == contains(h@, seq![c]),
{
    let mut n: Vec<char> = Vec::new();
    n.push(c);
    let f = find_chars(h, &n);
    proof {
        lemma_find(h@, n@);
    }
    f.is_some()
}

pub fn has_prefix(s: &Vec<char>, p: &str) -> (r: bool)
    ensures
        r == starts_with(s@, p@),
{
    let pc = chars_of(p);
    if pc.len() > s.len() {
        return false;
    }
    let r = matches_at(s, &pc, 0);
    assert(s@.subrange(0, pc.len() as int) =~= s@.take(pc.len() as int));
    r
}

pub fn has_suffix(s: &Vec<char>, p: &str) -> (r: bool)
    ensures
        r == ends_with(s@, p@),
{
    let pc = chars_of(p);
    if pc.len() > s.len() {
        return false;
    }
    let r = matches_at(s, &pc, s.len() - pc.len());
    assert(s@.subrange(s.len() - pc.len(), s.len() as int) =~= s@.skip(s.len() - pc.len()));
    r
}

/// `a` and the text `b` are the same characters.
pub fn same(a: &Vec<char>, b: &str) -> (r: bool)
    ensures
        r == (a@ == b@),
{
    let bc = chars_of(b);
    same_chars(a, &bc)
}

pub fn same_chars(a: &Vec<char>, b: &Vec<char>) -> (r: bool)
    ensures
        r == (a@ == b@),
{
    if a.len() != b.len() {
        return false;
    }
    let r = matches_at(a, b, 0);
    assert(a@.subrange(0, b.len() as int) =~= a@);
    r
}

// ---------------------------------------------------------------------------
// UTF-8 byte lengths
// ---------------------------------------------------------------------------

/// Bytes that `c` takes in UTF-8.
pub open spec fn char_width(c: char) -> nat {
    let u = c as u32;
    if u <= 0x7F {
        1
    } else if u <= 0x7FF {
        2
    } else if u <= 0xFFFF {
        3
    } else {
        4
    }
}

/// Length of `s` in UTF-8 bytes (what `str::len` returns).
pub open spec fn utf8_len(s: Seq<char>) -> nat
    decreases s.len(),
{
    if s.len() == 0 {
        0
    } else {
        char_width(s[0]) + utf8_len(s.drop_first())
    }
}

pub proof fn lemma_utf8_len_encode(s: Seq<char>)
    ensures
        utf8_len(s) == encode_utf8(s).len(),
    decreases s.len(),
{
    if s.len() > 0 {
        let u = s[0] as u32;
        vstd::utf8::char_is_scalar(s[0]);
        assert(vstd::utf8::is_scalar(u));
        assert(vstd::utf8::encode_scalar(u).len() == char_width(s[0]));
        lemma_utf8_len_encode(s.drop_first());
    }
}

/// A text takes at least one byte per character.
pub proof fn lemma_utf8_len_at_least(s: Seq<char>)
    ensures
        s.len() <= utf8_len(s),
    decreases s.len(),
{
    if s.len() > 0 {
        lemma_utf8_len_at_least(s.drop_first());
    }
}

pub proof fn lemma_utf8_len_concat(a: Seq<char>, b: Seq<char>)
    ensures
        utf8_len(a + b) == utf8_len(a) + utf8_len(b),
    decreases a.len(),
{
    if a.len() > 0 {
        assert((a + b).drop_first() =~= a.drop_first() + b);
        lemma_utf8_len_concat(a.drop_first(), b);
    } else {
        assert(a + b =~= b);
    }
}

pub proof fn lemma_utf8_len_take(s: Seq<char>, k: int)
    requires
        0 <= k <= s.len(),
    ensures
        utf8_len(s) == utf8_len(s.take(k)) + utf8_len(s.skip(k)),
        utf8_len(s.take(k)) <= utf8_len(s),
{
    lemma_utf8_len_concat(s.take(k), s.skip(k));
    assert(s.take(k) + s.skip(k) =~= s);
}

proof fn lemma_utf8_len_push(s: Seq<char>, c: char)
    ensures
        utf8_len(s.push(c)) == utf8_len(s) + char_width(c),
{
    lemma_utf8_len_concat(s, seq![c]);
    assert(s + seq![c] =~= s.push(c));
    assert(seq![c].drop_first() =~= Seq::<char>::empty());
    assert(utf8_len(Seq::<char>::empty()) == 0);
    assert(utf8_len(seq![c]) == char_width(c));
}

pub fn char_width_of(c: char) -> (w: usize)
    ensures
        w == char_width(c),
{
    let u: u32 = c as u32;
    if u <= 0x7F {
        1
    } else if u <= 0x7FF {
        2
    } else if u <= 0xFFFF {
        3
    } else {
        4
    }
}

/// The byte length of a string slice fits in `usize`.
pub fn str_bytes(s: &str) -> (n: usize)
    ensures
        n == utf8_len(s@),
{
    let b = s.as_bytes();
    proof {
        lemma_utf8_len_encode(s@);
    }
    b.len()
}

/// Byte length of the first `k` characters of `s`.
pub fn utf8_prefix_len(s: &Vec<char>, k: usize) -> (n: usize)
    requires
        k <= s.len(),
        utf8_len(s@) <= usize::MAX,
    ensures
        n == utf8_len(s@.take(k as int)),
{
    let mut n: usize = 0;
    let mut i: usize = 0;
    while i < k
        invariant
            i <= k <= s.len(),
            utf8_len(s@) <= usize::MAX,
            n == utf8_len(s@.take(i as int)),
        decreases k - i,
    {
        proof {
            assert(s@.take(i + 1) =~= s@.take(i as int).push(s@[i as int]));
            lemma_utf8_len_push(s@.take(i as int), s@[i as int]);
            lemma_utf8_len_take(s@, i + 1);
        }
        n = n + char_width_of(s[i]);
        i = i + 1;
    }
    n
}

// ---------------------------------------------------------------------------
// Lines
// ---------------------------------------------------------------------------

/// Position of the first `'\n'`, or the length when there is none.
pub open spec fn nl_index(s: Seq<char>) -> nat
    decreases s.len(),
{
    if s.len() == 0 {
        0
    } else if s[0] == '\n' {
        0
    } else {
        1 + nl_index(s.drop_first())
    }
}

pub open spec fn strip_cr(s: Seq<char>) -> Seq<char> {
    if s.len() > 0 && s.last() == '\r' {
        s.drop_last()
    } else {
        s
    }
}

/// `str::lines`: split at `"\n"` or `"\r\n"`; a final terminator adds no empty line.
pub open spec fn lines_of(s: Seq<char>) -> Seq<Seq<char>>
    decreases s.len(),
{
    if s.len() == 0 {
        seq![]
    } else {
        let k = nl_index(s);
        if k < s.len() {
            seq![strip_cr(s.take(k as int))] + lines_of(s.skip(k as int + 1))
        } else {
            seq![s]
        }
    }
}

pub proof fn lemma_nl_index(s: Seq<char>, k: int)
    requires
        0 <= k <= s.len(),
        forall|i: int| 0 <= i < k ==> #[trigger] s[i] != '\n',
        k == s.len() || s[k] == '\n',
    ensures
        nl_index(s) == k,
    decreases k,
{
    if k > 0 {
        let t = s.drop_first();
        assert forall|i: int| 0 <= i < k - 1 implies #[trigger] t[i] != '\n' by {
            assert(t[i] == s[i + 1]);
        }
        if k - 1 < t.len() {
            assert(t[k - 1] == s[k]);
        }
        lemma_nl_index(t, k - 1);
    }
}

proof fn lemma_nl_index_before(s: Seq<char>)
    ensures
        nl_index(s) <= s.len(),
        forall|j: int| 0 <= j < nl_index(s) ==> #[trigger] s[j] != '\n',
    decreases s.len(),
{
    if s.len() > 0 && s[0] != '\n' {
        let t = s.drop_first();
        lemma_nl_index_before(t);
        assert forall|j: int| 0 <= j < nl_index(s) implies #[trigger] s[j] != '\n' by {
            if j > 0 {
                assert(s[j] == t[j - 1]);
            }
        }
    }
}

/// Law: no line that `lines_of` yields holds a `'\n'`.
pub proof fn law_lines_hold_no_newline(s: Seq<char>)
    ensures
        forall|i: int| 0 <= i < lines_of(s).len() ==> !contains(#[trigger] lines_of(s)[i], seq!['\n']),
    decreases s.len(),
{
    if s.len() > 0 {
        let k = nl_index(s);
        lemma_nl_index_before(s);
        let head = strip_cr(s.take(k as int));
        assert forall|j: int| 0 <= j < head.len() implies #[trigger] head[j] != '\n' by {
            assert(head[j] == s[j]);
        }
        assert(!contains(head, seq!['\n'])) by {
            if contains(head, seq!['\n']) {
                let j = choose|j: int| occurs_at(head, seq!['\n'], j);
                assert(head.subrange(j, j + 1)[0] == head[j]);
            }
        }
        if k < s.len() {
            law_lines_hold_no_newline(s.skip(k as int + 1));
            let rest = lines_of(s.skip(k as int + 1));
            assert forall|i: int| 0 <= i < lines_of(s).len() implies !contains(
                #[trigger] lines_of(s)[i],
                seq!['\n'],
            ) by {
                if i > 0 {
                    assert(lines_of(s)[i] == rest[i - 1]);
                }
            }
        } else {
            assert forall|j: int| 0 <= j < s.len() implies #[trigger] s[j] != '\n' by {}
            assert(!contains(s, seq!['\n'])) by {
                if contains(s, seq!['\n']) {
                    let j = choose|j: int| occurs_at(s, seq!['\n'], j);
                    assert(s.subrange(j, j + 1)[0] == s[j]);
                }
            }
        }
    }
}

} // verus!
