//! Character-level text utilities with their mathematical models.
//!
//! Text is modelled as `Seq<char>`, the view of `String` and `&str`.
use vstd::prelude::*;

verus! {

/// The views of a sequence of strings.
pub open spec fn views(v: Seq<String>) -> Seq<Seq<char>> {
    v.map_values(|s: String| s@)
}

/// The Unicode `White_Space` property, which is what `char::is_whitespace` tests.
pub open spec fn is_ws(c: char) -> bool {
    let u = c as u32;
    ||| 9 <= u <= 13
    ||| u == 32
    ||| u == 0x85
    ||| u == 0xA0
    ||| u == 0x1680
    ||| 0x2000 <= u <= 0x200A
    ||| u == 0x2028
    ||| u == 0x2029
    ||| u == 0x202F
    ||| u == 0x205F
    ||| u == 0x3000
}

pub fn is_whitespace(c: char) -> (r: bool)
    ensures
        r == is_ws(c),
{
    let u = c as u32;
    (9 <= u && u <= 13) || u == 32 || u == 0x85 || u == 0xA0 || u == 0x1680 || (0x2000 <= u && u
        <= 0x200A) || u == 0x2028 || u == 0x2029 || u == 0x202F || u == 0x205F || u == 0x3000
}

pub open spec fn trim_start_seq(s: Seq<char>) -> Seq<char>
    decreases s.len(),
{
    if s.len() > 0 && is_ws(s[0]) {
        trim_start_seq(s.drop_first())
    } else {
        s
    }
}

pub open spec fn trim_end_seq(s: Seq<char>) -> Seq<char>
    decreases s.len(),
{
    if s.len() > 0 && is_ws(s.last()) {
        trim_end_seq(s.drop_last())
    } else {
        s
    }
}

/// What `str::trim` returns: leading and trailing white space removed.
pub open spec fn trim_seq(s: Seq<char>) -> Seq<char> {
    trim_end_seq(trim_start_seq(s))
}

/// True when the text is empty or all white space.
pub open spec fn is_blank_seq(s: Seq<char>) -> bool {
    forall|i: int| 0 <= i < s.len() ==> is_ws(#[trigger] s[i])
}

pub proof fn lemma_trim_start_at(s: Seq<char>, k: int)
    requires
        0 <= k <= s.len(),
        forall|i: int| 0 <= i < k ==> is_ws(#[trigger] s[i]),
        k == s.len() || !is_ws(s[k]),
    ensures
        trim_start_seq(s) == s.subrange(k, s.len() as int),
    decreases k,
{
    if k > 0 {
        let t = s.drop_first();
        assert forall|i: int| 0 <= i < k - 1 implies is_ws(#[trigger] t[i]) by {
            assert(t[i] == s[i + 1]);
        }
        lemma_trim_start_at(t, k - 1);
        assert(t.subrange(k - 1, t.len() as int) =~= s.subrange(k, s.len() as int));
    } else {
        assert(s.subrange(0, s.len() as int) =~= s);
    }
}

pub proof fn lemma_trim_end_at(s: Seq<char>, k: int)
    requires
        0 <= k <= s.len(),
        forall|i: int| k <= i < s.len() ==> is_ws(#[trigger] s[i]),
        k == 0 || !is_ws(s[k - 1]),
    ensures
        trim_end_seq(s) == s.subrange(0, k),
    decreases s.len() - k,
{
    if k < s.len() {
        let t = s.drop_last();
        assert forall|i: int| k <= i < t.len() implies is_ws(#[trigger] t[i]) by {
            assert(t[i] == s[i]);
        }
        lemma_trim_end_at(t, k);
        assert(t.subrange(0, k) =~= s.subrange(0, k));
    } else {
        assert(s.subrange(0, s.len() as int) =~= s);
    }
}

pub proof fn lemma_blank_trim(s: Seq<char>)
    ensures
        is_blank_seq(s) <==> trim_seq(s).len() == 0,
        trim_seq(s).len() == 0 <==> trim_start_seq(s).len() == 0,
    decreases s.len(),
{
    if s.len() > 0 && is_ws(s[0]) {
        lemma_blank_trim(s.drop_first());
        if is_blank_seq(s.drop_first()) {
            assert forall|i: int| 0 <= i < s.len() implies is_ws(#[trigger] s[i]) by {
                if i > 0 {
                    assert(s[i] == s.drop_first()[i - 1]);
                }
            }
        }
        if is_blank_seq(s) {
            assert forall|i: int| 0 <= i < s.drop_first().len() implies is_ws(
                #[trigger] s.drop_first()[i],
            ) by {
                assert(s.drop_first()[i] == s[i + 1]);
            }
        }
    } else if s.len() > 0 {
        assert(!is_blank_seq(s));
        let t = trim_start_seq(s);
        assert(t == s);
        if t.len() > 0 {
            lemma_trim_end_nonws_start(t);
        }
    } else {
        assert(trim_end_seq(s) == s);
    }
}

proof fn lemma_trim_start_shape(s: Seq<char>)
    ensures
        trim_start_seq(s).len() == 0 || !is_ws(trim_start_seq(s)[0]),
    decreases s.len(),
{
    if s.len() > 0 && is_ws(s[0]) {
        lemma_trim_start_shape(s.drop_first());
    }
}

proof fn lemma_trim_end_shape(s: Seq<char>)
    ensures
        trim_end_seq(s) == s.subrange(0, trim_end_seq(s).len() as int),
        trim_end_seq(s).len() <= s.len(),
        trim_end_seq(s).len() == 0 || !is_ws(trim_end_seq(s).last()),
    decreases s.len(),
{
    if s.len() > 0 && is_ws(s.last()) {
        lemma_trim_end_shape(s.drop_last());
        assert(s.drop_last().subrange(0, trim_end_seq(s).len() as int) =~= s.subrange(
            0,
            trim_end_seq(s).len() as int,
        ));
    } else {
        assert(s.subrange(0, s.len() as int) =~= s);
    }
}

/// Trimming trimmed text changes nothing.
pub proof fn lemma_trim_idempotent(s: Seq<char>)
    ensures
        trim_seq(trim_seq(s)) == trim_seq(s),
{
    let u = trim_start_seq(s);
    let t = trim_end_seq(u);
    lemma_trim_start_shape(s);
    lemma_trim_end_shape(u);
    if t.len() > 0 {
        assert(t[0] == u[0]);
        assert(trim_start_seq(t) == t);
        assert(trim_end_seq(t) == t);
    } else {
        assert(trim_start_seq(t) == t);
        assert(trim_end_seq(t) == t);
    }
}

proof fn lemma_trim_end_nonws_start(s: Seq<char>)
    requires
        s.len() > 0,
        !is_ws(s[0]),
    ensures
        trim_end_seq(s).len() > 0,
    decreases s.len(),
{
    if is_ws(s.last()) {
        assert(s.len() > 1);
        assert(s.drop_last()[0] == s[0]);
        lemma_trim_end_nonws_start(s.drop_last());
    }
}

/// The characters of a string slice.
pub(crate) fn chars_of(s: &str) -> (r: Vec<char>)
    ensures
        r@ == s@,
{
    broadcast use vstd::string::axiom_spec_iter;
    let mut out: Vec<char> = Vec::new();
    for c in it: s.chars()
        invariant
            it.seq() == s@,
            out@ == it.seq().take(it.index() as int),
    {
        out.push(c);
        assert(out@ =~= it.seq().take(it.index() + 1));
    }
    assert(out@ =~= s@);
    out
}

/// The string made of a sequence of characters.
pub(crate) fn string_of(v: &[char]) -> (r: String)
    ensures
        r@ == v@,
{
    let mut out = String::new();
    let mut i: usize = 0;
    while i < v.len()
        invariant
            i <= v@.len(),
            out@ == v@.take(i as int),
        decreases v.len() - i,
    {
        push_char(&mut out, v[i]);
        i = i + 1;
        assert(out@ =~= v@.take(i as int));
    }
    assert(v@.take(i as int) =~= v@);
    out
}

/// `String::push`: appends one character.
#[verifier::external_body]
pub fn push_char(s: &mut String, c: char)
    ensures
        final(s)@ == old(s)@.push(c),
{
    s.push(c)
}

/// `String::pop`: removes and returns the last character, if any.
#[verifier::external_body]
pub fn pop_char(s: &mut String) -> (r: Option<char>)
    ensures
        old(s)@.len() == 0 ==> r is None && final(s)@ == old(s)@,
        old(s)@.len() > 0 ==> r == Some(old(s)@.last()) && final(s)@ == old(s)@.drop_last(),
{
    s.pop()
}

pub fn to_owned_str(s: &str) -> (r: String)
    ensures
        r@ == s@,
{
    String::from_str(s)
}

pub fn cat(a: &str, b: &str) -> (r: String)
    ensures
        r@ == a@ + b@,
{
    String::from_str(a).concat(b)
}

pub fn cat3(a: &str, b: &str, c: &str) -> (r: String)
    ensures
        r@ == a@ + b@ + c@,
{
    String::from_str(a).concat(b).concat(c)
}

pub fn push_str(s: &mut String, t: &str)
    ensures
        final(s)@ == old(s)@ + t@,
{
    s.append(t);
}

pub fn subrange_string(v: &Vec<char>, lo: usize, hi: usize) -> (r: String)
    requires
        lo <= hi <= v.len(),
    ensures
        r@ == v@.subrange(lo as int, hi as int),
{
    let mut out: Vec<char> = Vec::new();
    let mut i = lo;
    while i < hi
        invariant
            lo <= i <= hi <= v.len(),
            out@ == v@.subrange(lo as int, i as int),
        decreases hi - i,
    {
        out.push(v[i]);
        i = i + 1;
        assert(out@ =~= v@.subrange(lo as int, i as int));
    }
    string_of(&out)
}

pub fn str_eq(a: &str, b: &str) -> (r: bool)
    ensures
        r == (a@ == b@),
{
    let x = chars_of(a);
    let y = chars_of(b);
    if x.len() != y.len() {
        return false;
    }
    let mut i: usize = 0;
    while i < x.len()
        invariant
            x@ == a@,
            y@ == b@,
            x.len() == y.len(),
            i <= x.len(),
            forall|j: int| 0 <= j < i ==> x@[j] == y@[j],
        decreases x.len() - i,
    {
        if x[i] != y[i] {
            return false;
        }
        i = i + 1;
    }
    assert(x@ =~= y@);
    true
}

/// Index of the first character that is not white space.
fn first_non_ws(v: &Vec<char>) -> (k: usize)
    ensures
        k <= v.len(),
        forall|i: int| 0 <= i < k ==> is_ws(#[trigger] v@[i]),
        k == v.len() || !is_ws(v@[k as int]),
{
    let mut k: usize = 0;
    while k < v.len() && is_whitespace(v[k])
        invariant
            k <= v.len(),
            forall|i: int| 0 <= i < k ==> is_ws(#[trigger] v@[i]),
        decreases v.len() - k,
    {
        k = k + 1;
    }
    k
}

/// One past the index of the last character (at or after `lo`) that is not white space.
fn last_non_ws(v: &Vec<char>, lo: usize) -> (k: usize)
    requires
        lo <= v.len(),
    ensures
        lo <= k <= v.len(),
        forall|i: int| k <= i < v.len() ==> is_ws(#[trigger] v@[i]),
        k == lo || !is_ws(v@[k - 1]),
{
    let mut k: usize = v.len();
    while k > lo && is_whitespace(v[k - 1])
        invariant
            lo <= k <= v.len(),
            forall|i: int| k <= i < v.len() ==> is_ws(#[trigger] v@[i]),
        decreases k,
    {
        k = k - 1;
    }
    k
}

pub fn trim(s: &str) -> (r: String)
    ensures
        r@ == trim_seq(s@),
{
    let v = chars_of(s);
    let lo = first_non_ws(&v);
    proof {
        lemma_trim_start_at(v@, lo as int);
    }
    let hi = last_non_ws(&v, lo);
    proof {
        let t = v@.subrange(lo as int, v@.len() as int);
        assert forall|i: int| hi - lo <= i < t.len() implies is_ws(#[trigger] t[i]) by {
            assert(t[i] == v@[i + lo]);
        }
        if hi > lo {
            assert(t[hi - lo - 1] == v@[hi - 1]);
        }
        lemma_trim_end_at(t, hi - lo);
        assert(t.subrange(0, hi - lo) =~= v@.subrange(lo as int, hi as int));
    }
    subrange_string(&v, lo, hi)
}

pub fn trim_start(s: &str) -> (r: String)
    ensures
        r@ == trim_start_seq(s@),
{
    let v = chars_of(s);
    let lo = first_non_ws(&v);
    proof {
        lemma_trim_start_at(v@, lo as int);
    }
    subrange_string(&v, lo, v.len())
}

pub fn trim_end(s: &str) -> (r: String)
    ensures
        r@ == trim_end_seq(s@),
{
    let v = chars_of(s);
    let hi = last_non_ws(&v, 0);
    proof {
        lemma_trim_end_at(v@, hi as int);
    }
    subrange_string(&v, 0, hi)
}

/// True when `s` is empty or white space only, that is, when `s.trim()` is empty.
pub fn is_blank(s: &str) -> (r: bool)
    ensures
        r == is_blank_seq(s@),
        r == (trim_seq(s@).len() == 0),
{
    let v = chars_of(s);
    let k = first_non_ws(&v);
    proof {
        lemma_blank_trim(s@);
    }
    k == v.len()
}

// ---------------------------------------------------------------------------
// Lines

/// Drops one trailing carriage return.
pub open spec fn strip_cr(l: Seq<char>) -> Seq<char> {
    if l.len() > 0 && l.last() == '\r' {
        l.drop_last()
    } else {
        l
    }
}

/// The state after reading the first `n` characters of `s`: the finished lines and the
/// characters of the line being read.
pub open spec fn line_scan(s: Seq<char>, n: nat) -> (Seq<Seq<char>>, Seq<char>)
    decreases n,
{
    if n == 0 {
        (Seq::empty(), Seq::empty())
    } else {
        let prev = line_scan(s, (n - 1) as nat);
        if s[n - 1] == '\n' {
            (prev.0.push(strip_cr(prev.1)), Seq::empty())
        } else {
            (prev.0, prev.1.push(s[n - 1]))
        }
    }
}

/// What `str::lines` yields: lines ended by `\n` (a `\r` before it is dropped); a final line
/// without `\n` is kept as it is, and an empty one is not yielded.
pub open spec fn lines_seq(s: Seq<char>) -> Seq<Seq<char>> {
    let st = line_scan(s, s.len());
    if st.1.len() == 0 {
        st.0
    } else {
        st.0.push(st.1)
    }
}

fn strip_cr_vec(v: Vec<char>) -> (r: Vec<char>)
    ensures
        r@ == strip_cr(v@),
{
    let mut v = v;
    if v.len() > 0 && v[v.len() - 1] == '\r' {
        v.pop();
    }
    v
}

pub fn lines(s: &str) -> (r: Vec<String>)
    ensures
        views(r@) == lines_seq(s@),
{
    let v = chars_of(s);
    let mut done: Vec<String> = Vec::new();
    let mut cur: Vec<char> = Vec::new();
    let mut i: usize = 0;
    while i < v.len()
        invariant
            v@ == s@,
            i <= v.len(),
            views(done@) == line_scan(s@, i as nat).0,
            cur@ == line_scan(s@, i as nat).1,
        decreases v.len() - i,
    {
        let c = v[i];
        if c == '\n' {
            let line = strip_cr_vec(cur);
            let ls = string_of(&line);
            done.push(ls);
            cur = Vec::new();
            assert(views(done@) =~= line_scan(s@, (i + 1) as nat).0);
        } else {
            cur.push(c);
            assert(cur@ =~= line_scan(s@, (i + 1) as nat).1);
        }
        i = i + 1;
    }
    if cur.len() > 0 {
        let ls = string_of(&cur);
        done.push(ls);
        assert(views(done@) =~= lines_seq(s@));
    }
    done
}

/// Number of lines that `str::lines` yields.
pub fn line_count(s: &str) -> (n: usize)
    ensures
        n == lines_seq(s@).len(),
{
    lines(s).len()
}

// ---------------------------------------------------------------------------
// Joining

/// The strings of `parts` with `sep` between each two of them.
pub open spec fn join_seq(parts: Seq<Seq<char>>, sep: Seq<char>) -> Seq<char>
    decreases parts.len(),
{
    if parts.len() == 0 {
        Seq::empty()
    } else if parts.len() == 1 {
        parts[0]
    } else {
        join_seq(parts.drop_last(), sep) + sep + parts.last()
    }
}

pub fn join(parts: &Vec<String>, sep: &str) -> (r: String)
    ensures
        r@ == join_seq(views(parts@), sep@),
{
    let mut out = String::new();
    let mut i: usize = 0;
    while i < parts.len()
        invariant
            i <= parts.len(),
            out@ == join_seq(views(parts@).take(i as int), sep@),
        decreases parts.len() - i,
    {
        proof {
            let p = views(parts@).take(i as int + 1);
            assert(p.drop_last() =~= views(parts@).take(i as int));
        }
        if i > 0 {
            out.append(sep);
        }
        out.append(parts[i].as_str());
        i = i + 1;
    }
    assert(views(parts@).take(parts.len() as int) =~= views(parts@));
    out
}

// ---------------------------------------------------------------------------
// Searching

/// `needle` occurs in `hay` at character index `i`.
pub open spec fn occurs_at(hay: Seq<char>, needle: Seq<char>, i: int) -> bool {
    0 <= i && i + needle.len() <= hay.len() && hay.subrange(i, i + needle.len()) == needle
}

pub open spec fn contains_seq(hay: Seq<char>, needle: Seq<char>) -> bool {
    exists|i: int| occurs_at(hay, needle, i)
}

/// The first index at which `needle` occurs.
pub open spec fn find_seq(hay: Seq<char>, needle: Seq<char>) -> Option<int> {
    if contains_seq(hay, needle) {
        Some(
            choose|i: int|
                occurs_at(hay, needle, i) && forall|j: int| 0 <= j < i ==> !occurs_at(hay, needle, j),
        )
    } else {
        None
    }
}

/// The last index at which `needle` occurs.
pub open spec fn rfind_seq(hay: Seq<char>, needle: Seq<char>) -> Option<int> {
    if contains_seq(hay, needle) {
        Some(
            choose|i: int|
                occurs_at(hay, needle, i) && forall|j: int| i < j ==> !occurs_at(hay, needle, j),
        )
    } else {
        None
    }
}

/// The last character index at which `n` occurs in `h`.
pub fn rfind_chars(h: &Vec<char>, n: &Vec<char>) -> (r: Option<usize>)
    ensures
        r matches Some(i) ==> rfind_seq(h@, n@) == Some(i as int) && occurs_at(h@, n@, i as int),
        r is None ==> rfind_seq(h@, n@) is None,
{
    if n.len() > h.len() {
        proof {
            assert forall|j: int| !occurs_at(h@, n@, j) by {}
        }
        return None;
    }
    let last = h.len() - n.len();
    let mut i: usize = last;
    loop
        invariant
            n.len() <= h.len(),
            last == h.len() - n.len(),
            i <= last,
            forall|j: int| i < j ==> !occurs_at(h@, n@, j),
        decreases i,
    {
        if matches_at(h, n, i) {
            proof {
                let k = i as int;
                assert(occurs_at(h@, n@, k));
                let w = choose|w: int|
                    occurs_at(h@, n@, w) && forall|j: int| w < j ==> !occurs_at(h@, n@, j);
                if w < k {
                } else if w > k {
                }
            }
            return Some(i);
        }
        if i == 0 {
            proof {
                assert forall|j: int| !occurs_at(h@, n@, j) by {
                    if j < 0 {
                    }
                }
            }
            return None;
        }
        i = i - 1;
    }
}

fn matches_at(h: &Vec<char>, n: &Vec<char>, i: usize) -> (r: bool)
    requires
        i + n.len() <= h.len(),
    ensures
        r == occurs_at(h@, n@, i as int),
{
    let mut j: usize = 0;
    while j < n.len()
        invariant
            i + n.len() <= h.len(),
            j <= n.len(),
            forall|k: int| 0 <= k < j ==> h@[i + k] == n@[k],
        decreases n.len() - j,
    {
        if h[i + j] != n[j] {
            assert(h@.subrange(i as int, i + n.len())[j as int] != n@[j as int]);
            return false;
        }
        j = j + 1;
    }
    assert(h@.subrange(i as int, i + n.len()) =~= n@);
    true
}

/// The first character index at which `n` occurs in `h`.
pub fn find_chars(h: &Vec<char>, n: &Vec<char>) -> (r: Option<usize>)
    ensures
        r matches Some(i) ==> find_seq(h@, n@) == Some(i as int),
        r matches Some(i) ==> occurs_at(h@, n@, i as int) && forall|j: int|
            0 <= j < i ==> !occurs_at(h@, n@, j),
        r is None ==> find_seq(h@, n@) is None,
        r is None ==> !contains_seq(h@, n@),
{
    if n.len() > h.len() {
        return None;
    }
    let last = h.len() - n.len();
    let mut i: usize = 0;
    loop
        invariant
            n.len() <= h.len(),
            last == h.len() - n.len(),
            i <= last,
            forall|j: int| 0 <= j < i ==> !occurs_at(h@, n@, j),
        decreases last - i,
    {
        if matches_at(h, n, i) {
            proof {
                let w = choose|k: int|
                    occurs_at(h@, n@, k) && forall|j: int| 0 <= j < k ==> !occurs_at(h@, n@, j);
                assert(occurs_at(h@, n@, i as int));
                if w < i {
                } else if w > i {
                }
            }
            return Some(i);
        }
        if i == last {
            return None;
        }
        i = i + 1;
    }
}

pub fn find_str(h: &str, n: &str) -> (r: Option<usize>)
    ensures
        r matches Some(i) ==> find_seq(h@, n@) == Some(i as int),
        r is None ==> find_seq(h@, n@) is None,
{
    let hv = chars_of(h);
    let nv = chars_of(n);
    find_chars(&hv, &nv)
}

pub fn contains(h: &str, n: &str) -> (r: bool)
    ensures
        r == contains_seq(h@, n@),
{
    find_str(h, n).is_some()
}

pub fn starts_with(h: &str, n: &str) -> (r: bool)
    ensures
        r == n@.is_prefix_of(h@),
{
    let hv = chars_of(h);
    let nv = chars_of(n);
    if nv.len() > hv.len() {
        return false;
    }
    let r = matches_at(&hv, &nv, 0);
    proof {
        if r {
            assert(hv@.subrange(0, nv@.len() as int) == nv@);
            assert forall|i: int| 0 <= i < nv@.len() implies nv@[i] == hv@[i] by {
                assert(hv@.subrange(0, nv@.len() as int)[i] == hv@[i]);
            }
        } else if n@.is_prefix_of(h@) {
            assert(hv@.subrange(0, nv@.len() as int) =~= nv@);
        }
    }
    r
}

pub open spec fn is_suffix_seq(n: Seq<char>, h: Seq<char>) -> bool {
    n.len() <= h.len() && h.subrange(h.len() - n.len(), h.len() as int) == n
}

pub fn ends_with(h: &str, n: &str) -> (r: bool)
    ensures
        r == is_suffix_seq(n@, h@),
{
    let hv = chars_of(h);
    let nv = chars_of(n);
    if nv.len() > hv.len() {
        return false;
    }
    matches_at(&hv, &nv, hv.len() - nv.len())
}

/// `str::strip_prefix`: the rest of `h` after the prefix `p`, when `h` starts with `p`.
pub fn strip_prefix(h: &str, p: &str) -> (r: Option<String>)
    ensures
        p@.is_prefix_of(h@) ==> (r matches Some(s) && s@ == h@.subrange(
            p@.len() as int,
            h@.len() as int,
        )),
        !p@.is_prefix_of(h@) ==> r is None,
{
    if starts_with(h, p) {
        let hv = chars_of(h);
        let pv = chars_of(p);
        let s = subrange_string(&hv, pv.len(), hv.len());
        Some(s)
    } else {
        None
    }
}

// ---------------------------------------------------------------------------
// Numbers

pub open spec fn digit_char(d: nat) -> char {
    if d == 0 {
        '0'
    } else if d == 1 {
        '1'
    } else if d == 2 {
        '2'
    } else if d == 3 {
        '3'
    } else if d == 4 {
        '4'
    } else if d == 5 {
        '5'
    } else if d == 6 {
        '6'
    } else if d == 7 {
        '7'
    } else if d == 8 {
        '8'
    } else {
        '9'
    }
}

/// The decimal digits of `n`, as `to_string` writes them.
pub open spec fn dec(n: nat) -> Seq<char>
    decreases n,
{
    if n < 10 {
        seq![digit_char(n)]
    } else {
        dec(n / 10).push(digit_char(n % 10))
    }
}

fn digit(d: u64) -> (c: char)
    requires
        d < 10,
    ensures
        c == digit_char(d as nat),
{
    if d == 0 {
        '0'
    } else if d == 1 {
        '1'
    } else if d == 2 {
        '2'
    } else if d == 3 {
        '3'
    } else if d == 4 {
        '4'
    } else if d == 5 {
        '5'
    } else if d == 6 {
        '6'
    } else if d == 7 {
        '7'
    } else if d == 8 {
        '8'
    } else {
        '9'
    }
}

pub fn u128_to_string(n: u128) -> (r: String)
    ensures
        r@ == dec(n as nat),
    decreases n,
{
    if n < 10 {
        let v = vec![digit(n as u64)];
        let r = string_of(v.as_slice());
        assert(r@ =~= dec(n as nat));
        r
    } else {
        let head = u128_to_string(n / 10);
        let v = vec![digit((n % 10) as u64)];
        let tail = string_of(v.as_slice());
        let r = head.concat(tail.as_str());
        assert(r@ =~= dec(n as nat));
        r
    }
}

pub fn u64_to_string(n: u64) -> (r: String)
    ensures
        r@ == dec(n as nat),
{
    u128_to_string(n as u128)
}

pub fn usize_to_string(n: usize) -> (r: String)
    ensures
        r@ == dec(n as nat),
{
    u64_to_string(n as u64)
}

pub open spec fn digit_value(c: char) -> int {
    (c as u32) - 48
}

pub open spec fn is_digit(c: char) -> bool {
    48 <= (c as u32) <= 57
}

/// The value of a decimal numeral made of ASCII digits.
pub open spec fn numeral_value(s: Seq<char>) -> int
    decreases s.len(),
{
    if s.len() == 0 {
        0
    } else {
        numeral_value(s.drop_last()) * 10 + digit_value(s.last())
    }
}

/// What `str::parse::<usize>` accepts: an optional `+` and at least one ASCII digit, whose
/// value fits in a `usize`.
pub open spec fn numeral_body(s: Seq<char>) -> Seq<char> {
    if s.len() > 0 && s[0] == '+' {
        s.drop_first()
    } else {
        s
    }
}

pub open spec fn parses_as_usize(s: Seq<char>, n: int) -> bool {
    let body = numeral_body(s);
    &&& body.len() > 0
    &&& forall|i: int| 0 <= i < body.len() ==> is_digit(#[trigger] body[i])
    &&& numeral_value(body) == n
    &&& 0 <= n <= usize::MAX
}

pub proof fn lemma_numeral_nonneg(s: Seq<char>)
    requires
        forall|i: int| 0 <= i < s.len() ==> is_digit(#[trigger] s[i]),
    ensures
        numeral_value(s) >= 0,
    decreases s.len(),
{
    if s.len() > 0 {
        assert forall|i: int| 0 <= i < s.drop_last().len() implies is_digit(
            #[trigger] s.drop_last()[i],
        ) by {
            assert(s.drop_last()[i] == s[i]);
        }
        lemma_numeral_nonneg(s.drop_last());
        assert(is_digit(s[s.len() - 1]));
    }
}

/// `str::parse::<usize>`.
pub fn parse_usize(s: &str) -> (r: Option<usize>)
    ensures
        r matches Some(n) ==> parses_as_usize(s@, n as int),
        r is None ==> forall|n: int| !parses_as_usize(s@, n),
{
    let v = chars_of(s);
    let start: usize = if v.len() > 0 && v[0] == '+' {
        1
    } else {
        0
    };
    let ghost body = numeral_body(s@);
    assert(body =~= v@.subrange(start as int, v@.len() as int));
    if start == v.len() {
        return None;
    }
    let mut acc: usize = 0;
    let mut i: usize = start;
    while i < v.len()
        invariant
            v@ == s@,
            start <= i <= v.len(),
            body == v@.subrange(start as int, v@.len() as int),
            body == numeral_body(s@),
            forall|j: int| start <= j < i ==> is_digit(#[trigger] v@[j]),
            acc == numeral_value(v@.subrange(start as int, i as int)),
        decreases v.len() - i,
    {
        let c = v[i];
        let u = c as u32;
        if u < 48 || u > 57 {
            proof {
                assert(body[i - start] == c);
                assert(!is_digit(c));
                assert forall|n: int| !parses_as_usize(s@, n) by {
                    assert(!is_digit(numeral_body(s@)[i - start]));
                }
            }
            return None;
        }
        let d = (u - 48) as usize;
        proof {
            let p = v@.subrange(start as int, i as int + 1);
            assert(p.drop_last() =~= v@.subrange(start as int, i as int));
        }
        if acc > (usize::MAX - d) / 10 {
            proof {
                let p = v@.subrange(start as int, i as int + 1);
                assert(numeral_value(p) == acc * 10 + d);
                assert(acc * 10 + d > usize::MAX) by (nonlinear_arith)
                    requires
                        acc > (usize::MAX - d) / 10,
                        d <= 9,
                ;
                assert forall|n: int| !parses_as_usize(s@, n) by {
                    if parses_as_usize(s@, n) {
                        assert(body == numeral_body(s@));
                        assert(forall|j: int| 0 <= j < body.len() ==> is_digit(#[trigger] body[j]));
                        assert(body.subrange(0, i - start + 1) =~= p);
                        lemma_numeral_prefix_bound(body, i - start + 1);
                    }
                }
            }
            return None;
        }
        acc = acc * 10 + d;
        i = i + 1;
    }
    assert(v@.subrange(start as int, v@.len() as int) =~= body);
    Some(acc)
}

/// What `str::parse::<u128>` accepts, as for `usize`.
pub open spec fn parses_as_u128(s: Seq<char>, n: int) -> bool {
    let body = numeral_body(s);
    &&& body.len() > 0
    &&& forall|i: int| 0 <= i < body.len() ==> is_digit(#[trigger] body[i])
    &&& numeral_value(body) == n
    &&& 0 <= n <= u128::MAX
}

/// `str::parse::<u128>`.
pub fn parse_u128(s: &str) -> (r: Option<u128>)
    ensures
        r matches Some(n) ==> parses_as_u128(s@, n as int),
        r is None ==> forall|n: int| !parses_as_u128(s@, n),
{
    let v = chars_of(s);
    let start: usize = if v.len() > 0 && v[0] == '+' {
        1
    } else {
        0
    };
    let ghost body = numeral_body(s@);
    assert(body =~= v@.subrange(start as int, v@.len() as int));
    if start == v.len() {
        return None;
    }
    let mut acc: u128 = 0;
    let mut i: usize = start;
    while i < v.len()
        invariant
            v@ == s@,
            start <= i <= v.len(),
            body == v@.subrange(start as int, v@.len() as int),
            body == numeral_body(s@),
            forall|j: int| start <= j < i ==> is_digit(#[trigger] v@[j]),
            acc == numeral_value(v@.subrange(start as int, i as int)),
        decreases v.len() - i,
    {
        let c = v[i];
        let u = c as u32;
        if u < 48 || u > 57 {
            proof {
                assert(body[i - start] == c);
                assert(!is_digit(c));
                assert forall|n: int| !parses_as_u128(s@, n) by {
                    assert(!is_digit(numeral_body(s@)[i - start]));
                }
            }
            return None;
        }
        let d = (u - 48) as u128;
        proof {
            let p = v@.subrange(start as int, i as int + 1);
            assert(p.drop_last() =~= v@.subrange(start as int, i as int));
        }
        if acc > (u128::MAX - d) / 10 {
            proof {
                let p = v@.subrange(start as int, i as int + 1);
                assert(numeral_value(p) == acc * 10 + d);
                assert(acc * 10 + d > u128::MAX) by (nonlinear_arith)
                    requires
                        acc > (u128::MAX - d) / 10,
                        d <= 9,
                ;
                assert forall|n: int| !parses_as_u128(s@, n) by {
                    if parses_as_u128(s@, n) {
                        assert(body == numeral_body(s@));
                        assert(forall|j: int| 0 <= j < body.len() ==> is_digit(#[trigger] body[j]));
                        assert(body.subrange(0, i - start + 1) =~= p);
                        lemma_numeral_prefix_bound(body, i - start + 1);
                    }
                }
            }
            return None;
        }
        acc = acc * 10 + d;
        i = i + 1;
    }
    assert(v@.subrange(start as int, v@.len() as int) =~= body);
    Some(acc)
}

/// The value of a numeral is at least that of each of its prefixes.
pub proof fn lemma_numeral_prefix_bound(s: Seq<char>, k: int)
    requires
        0 <= k <= s.len(),
        forall|i: int| 0 <= i < s.len() ==> is_digit(#[trigger] s[i]),
    ensures
        numeral_value(s.subrange(0, k)) <= numeral_value(s),
    decreases s.len(),
{
    if k < s.len() {
        let t = s.drop_last();
        assert forall|i: int| 0 <= i < t.len() implies is_digit(#[trigger] t[i]) by {
            assert(t[i] == s[i]);
        }
        lemma_numeral_prefix_bound(t, k);
        assert(t.subrange(0, k) =~= s.subrange(0, k));
        lemma_numeral_nonneg(t);
        assert(is_digit(s[s.len() - 1]));
    } else {
        assert(s.subrange(0, k) =~= s);
    }
}

// ---------------------------------------------------------------------------
// Case

/// What `str::to_lowercase` returns (Unicode lower case mapping).
pub uninterp spec fn unicode_lowercase(s: Seq<char>) -> Seq<char>;

/// `str::to_lowercase`; the result is the Unicode lower case mapping of the argument. As the
/// documentation of `str::to_lowercase` shows, the empty string stays empty, and ASCII text is
/// lowered letter by letter (`A` to `Z` become `a` to `z`, the rest stays).
#[verifier::external_body]
pub(crate) fn to_lowercase(s: &str) -> (r: String)
    ensures
        r@ == unicode_lowercase(s@),
        s@.len() == 0 ==> r@.len() == 0,
        (forall|i: int| 0 <= i < s@.len() ==> (#[trigger] s@[i] as u32) < 128) ==> r@ == s@.map_values(
            |c: char| ascii_lower(c),
        ),
{
    s.to_lowercase()
}

pub open spec fn ascii_lower(c: char) -> char {
    if 65 <= (c as u32) <= 90 {
        ((c as u32) + 32) as char
    } else {
        c
    }
}

fn ascii_lower_exec(c: char) -> (r: char)
    ensures
        r == ascii_lower(c),
{
    if 'A' <= c && c <= 'Z' {
        let u = c as u32 + 32;
        proof {
            assert(65 <= u - 32 <= 90);
        }
        char_from_u32(u)
    } else {
        c
    }
}

/// `char::from_u32` on a code point known to be valid.
#[verifier::external_body]
fn char_from_u32(u: u32) -> (c: char)
    requires
        u < 0xD800,
    ensures
        c == u as char,
        c as u32 == u,
{
    char::from_u32(u).unwrap()
}

/// `str::eq_ignore_ascii_case`.
pub fn eq_ignore_ascii_case(a: &str, b: &str) -> (r: bool)
    ensures
        r == (a@.len() == b@.len() && forall|i: int|
            0 <= i < a@.len() ==> ascii_lower(#[trigger] a@[i]) == ascii_lower(b@[i])),
{
    let x = chars_of(a);
    let y = chars_of(b);
    if x.len() != y.len() {
        return false;
    }
    let mut i: usize = 0;
    while i < x.len()
        invariant
            x@ == a@,
            y@ == b@,
            x.len() == y.len(),
            i <= x.len(),
            forall|j: int| 0 <= j < i ==> ascii_lower(#[trigger] x@[j]) == ascii_lower(y@[j]),
        decreases x.len() - i,
    {
        if ascii_lower_exec(x[i]) != ascii_lower_exec(y[i]) {
            return false;
        }
        i = i + 1;
    }
    true
}

} // verus!
