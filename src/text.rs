use vstd::prelude::*;

verus! {

/// Left-to-right replacement of every non-overlapping occurrence of `pat`
/// by `rep`, as `str::replace` does for a non-empty pattern.
pub open spec fn replace_all(s: Seq<char>, pat: Seq<char>, rep: Seq<char>) -> Seq<char>
    decreases s.len(),
{
    if pat.len() == 0 || s.len() == 0 {
        s
    } else if s.len() >= pat.len() && s.subrange(0, pat.len() as int) == pat {
        rep + replace_all(s.subrange(pat.len() as int, s.len() as int), pat, rep)
    } else {
        seq![s[0]] + replace_all(s.drop_first(), pat, rep)
    }
}

/// Whether `pat` occurs in `s` at position `i`.
pub open spec fn occurs_at(s: Seq<char>, pat: Seq<char>, i: int) -> bool {
    0 <= i && i + pat.len() <= s.len() && s.subrange(i, i + pat.len()) == pat
}

/// Whether `pat` occurs anywhere in `s`.
pub open spec fn contains(s: Seq<char>, pat: Seq<char>) -> bool {
    exists|i: int| occurs_at(s, pat, i)
}

/// The characters that have the Unicode `White_Space` property, which is
/// what `char::is_whitespace` and `str::trim` go by.
pub open spec fn is_space_char(c: char) -> bool {
    ('\u{9}' <= c && c <= '\u{d}') || c == ' ' || c == '\u{85}' || c == '\u{a0}'
        || c == '\u{1680}' || ('\u{2000}' <= c && c <= '\u{200a}') || c == '\u{2028}'
        || c == '\u{2029}' || c == '\u{202f}' || c == '\u{205f}' || c == '\u{3000}'
}

pub open spec fn trim_start(s: Seq<char>) -> Seq<char>
    decreases s.len(),
{
    if s.len() > 0 && is_space_char(s[0]) {
        trim_start(s.drop_first())
    } else {
        s
    }
}

pub open spec fn trim_end(s: Seq<char>) -> Seq<char>
    decreases s.len(),
{
    if s.len() > 0 && is_space_char(s.last()) {
        trim_end(s.drop_last())
    } else {
        s
    }
}

/// `s` without its leading and trailing whitespace, as `str::trim` gives it.
pub open spec fn trim(s: Seq<char>) -> Seq<char> {
    trim_end(trim_start(s))
}

/// Every space of `s` turned into a `+`.
pub open spec fn spaces_to_plus(s: Seq<char>) -> Seq<char> {
    s.map_values(|c: char| if c == ' ' { '+' } else { c })
}

/// A free-text search as it is sent: spaces become `+`, and the whitespace
/// around it is trimmed.
pub open spec fn normalized(s: Seq<char>) -> Seq<char> {
    trim(spaces_to_plus(s))
}

pub fn is_space(c: char) -> (r: bool)
    ensures
        r == is_space_char(c),
{
    ('\u{9}' <= c && c <= '\u{d}') || c == ' ' || c == '\u{85}' || c == '\u{a0}'
        || c == '\u{1680}' || ('\u{2000}' <= c && c <= '\u{200a}') || c == '\u{2028}'
        || c == '\u{2029}' || c == '\u{202f}' || c == '\u{205f}' || c == '\u{3000}'
}

/// Whether `pat` stands in `s` at character position `i`; `n` and `m` are
/// the character counts of `s` and `pat`.
fn occurs_here(s: &str, n: usize, i: usize, pat: &str, m: usize) -> (r: bool)
    requires
        n == s@.len(),
        m == pat@.len(),
        i <= n,
    ensures
        r == occurs_at(s@, pat@, i as int),
{
    if m > n - i {
        return false;
    }
    let mut j: usize = 0;
    while j < m
        invariant
            n == s@.len(),
            m == pat@.len(),
            i + m <= n,
            j <= m,
            forall|k: int| 0 <= k < j ==> s@[i + k] == pat@[k],
        decreases m - j,
    {
        if s.get_char(i + j) != pat.get_char(j) {
            assert(s@.subrange(i as int, i + m)[j as int] != pat@[j as int]);
            return false;
        }
        j = j + 1;
    }
    assert(s@.subrange(i as int, i + m) =~= pat@);
    true
}

proof fn lemma_replace_copy(s: Seq<char>, pat: Seq<char>, rep: Seq<char>)
    requires
        s.len() > 0,
        pat.len() > 0,
        !occurs_at(s, pat, 0),
    ensures
        replace_all(s, pat, rep) == seq![s[0]] + replace_all(s.drop_first(), pat, rep),
{
}

/// Every non-overlapping occurrence of `pat` in `s` replaced by `rep`, from
/// the left.
pub fn replace_str(s: &str, pat: &str, rep: &str) -> (r: String)
    requires
        pat@.len() > 0,
    ensures
        r@ == replace_all(s@, pat@, rep@),
{
    let n = s.unicode_len();
    let m = pat.unicode_len();
    let mut out = String::new();
    let mut i: usize = 0;
    assert(out@ =~= Seq::<char>::empty());
    assert(s@.subrange(0, n as int) =~= s@);
    while i < n
        invariant
            n == s@.len(),
            m == pat@.len(),
            m > 0,
            i <= n,
            out@ + replace_all(s@.subrange(i as int, n as int), pat@, rep@) == replace_all(
                s@,
                pat@,
                rep@,
            ),
        decreases n - i,
    {
        let ghost rest = s@.subrange(i as int, n as int);
        if occurs_here(s, n, i, pat, m) {
            proof {
                assert(rest.subrange(0, m as int) =~= s@.subrange(i as int, i + m));
                assert(rest.subrange(m as int, rest.len() as int) =~= s@.subrange(
                    i + m,
                    n as int,
                ));
            }
            out.append(rep);
            i = i + m;
        } else {
            proof {
                if rest.len() >= m {
                    assert(rest.subrange(0, m as int) =~= s@.subrange(i as int, i + m));
                }
                lemma_replace_copy(rest, pat@, rep@);
                assert(rest.drop_first() =~= s@.subrange(i + 1, n as int));
            }
            let c = s.substring_char(i, i + 1);
            assert(c@ =~= seq![rest[0]]);
            out.append(c);
            i = i + 1;
        }
    }
    assert(s@.subrange(n as int, n as int) =~= Seq::<char>::empty());
    out
}

proof fn lemma_trim_start_suffix(s: Seq<char>)
    ensures
        trim_start(s).len() <= s.len(),
        trim_start(s) == s.subrange(s.len() - trim_start(s).len(), s.len() as int),
        trim_start(s).len() > 0 ==> !is_space_char(trim_start(s)[0]),
    decreases s.len(),
{
    if s.len() > 0 && is_space_char(s[0]) {
        lemma_trim_start_suffix(s.drop_first());
        assert(s.drop_first().subrange(
            s.drop_first().len() - trim_start(s).len(),
            s.drop_first().len() as int,
        ) =~= s.subrange(s.len() - trim_start(s).len(), s.len() as int));
    } else {
        assert(s.subrange(0, s.len() as int) =~= s);
    }
}

proof fn lemma_trim_end_prefix(s: Seq<char>)
    ensures
        trim_end(s).len() <= s.len(),
        trim_end(s) == s.subrange(0, trim_end(s).len() as int),
        trim_end(s).len() > 0 ==> !is_space_char(trim_end(s).last()),
    decreases s.len(),
{
    if s.len() > 0 && is_space_char(s.last()) {
        lemma_trim_end_prefix(s.drop_last());
        assert(s.drop_last().subrange(0, trim_end(s).len() as int) =~= s.subrange(
            0,
            trim_end(s).len() as int,
        ));
    } else {
        assert(s.subrange(0, s.len() as int) =~= s);
    }
}

/// A normalized search holds no space, and neither starts nor ends with
/// whitespace.
pub proof fn lemma_normalized_query(s: Seq<char>)
    ensures
        forall|i: int| 0 <= i < normalized(s).len() ==> normalized(s)[i] != ' ',
        normalized(s).len() > 0 ==> !is_space_char(normalized(s)[0]) && !is_space_char(
            normalized(s).last(),
        ),
{
    let t = spaces_to_plus(s);
    let u = trim_start(t);
    lemma_trim_start_suffix(t);
    lemma_trim_end_prefix(u);
    let k = t.len() - u.len();
    assert forall|i: int| 0 <= i < normalized(s).len() implies normalized(s)[i] != ' ' by {
        assert(normalized(s)[i] == u[i]);
        assert(u[i] == t[k + i]);
    }
    if normalized(s).len() > 0 {
        assert(normalized(s)[0] == u[0]);
    }
}

/// `input` with every space turned into `+` and the surrounding whitespace
/// trimmed: the search term as it is sent.
pub fn normalize_query(input: &str) -> (r: String)
    ensures
        r@ == normalized(input@),
{
    let n = input.unicode_len();
    let mut t = String::new();
    let mut i: usize = 0;
    while i < n
        invariant
            n == input@.len(),
            i <= n,
            t@ == spaces_to_plus(input@.subrange(0, i as int)),
        decreases n - i,
    {
        let c = input.get_char(i);
        if c == ' ' {
            t.append("+");
            proof {
                reveal_strlit("+");
            }
        } else {
            t.append(input.substring_char(i, i + 1));
        }
        assert(t@ =~= spaces_to_plus(input@.subrange(0, i + 1)));
        i = i + 1;
    }
    assert(input@.subrange(0, n as int) =~= input@);
    let ts = t.as_str();
    let m = ts.unicode_len();
    let mut a: usize = 0;
    assert(t@.subrange(0, m as int) =~= t@);
    loop
        invariant
            ts@ == t@,
            m == t@.len(),
            a <= m,
            trim_start(t@) == trim_start(t@.subrange(a as int, m as int)),
        ensures
            a <= m,
            trim_start(t@) == trim_start(t@.subrange(a as int, m as int)),
            a == m || !is_space_char(t@[a as int]),
        decreases m - a,
    {
        if a == m || !is_space(ts.get_char(a)) {
            break;
        }
        assert(t@.subrange(a as int, m as int).drop_first() =~= t@.subrange(a + 1, m as int));
        a = a + 1;
    }
    let ghost head = t@.subrange(a as int, m as int);
    assert(trim_start(t@) == head);
    let mut b: usize = m;
    assert(t@.subrange(a as int, b as int) =~= head);
    loop
        invariant
            ts@ == t@,
            m == t@.len(),
            a <= b <= m,
            head == t@.subrange(a as int, m as int),
            trim_end(head) == trim_end(t@.subrange(a as int, b as int)),
        ensures
            a <= b <= m,
            trim_end(head) == trim_end(t@.subrange(a as int, b as int)),
            b == a || !is_space_char(t@[b - 1]),
        decreases b - a,
    {
        if b == a || !is_space(ts.get_char(b - 1)) {
            break;
        }
        assert(t@.subrange(a as int, b as int).drop_last() =~= t@.subrange(a as int, b - 1));
        b = b - 1;
    }
    assert(trim_end(t@.subrange(a as int, b as int)) == t@.subrange(a as int, b as int));
    String::from_str(ts.substring_char(a, b))
}

/// `s` unchanged where `pat` does not occur in it.
pub proof fn lemma_replace_absent(s: Seq<char>, pat: Seq<char>, rep: Seq<char>)
    requires
        !contains(s, pat),
    ensures
        replace_all(s, pat, rep) == s,
    decreases s.len(),
{
    if pat.len() > 0 && s.len() > 0 {
        assert(!occurs_at(s, pat, 0));
        assert forall|i: int| !occurs_at(s.drop_first(), pat, i) by {
            if occurs_at(s.drop_first(), pat, i) {
                assert(s.subrange(i + 1, i + 1 + pat.len()) =~= s.drop_first().subrange(
                    i,
                    i + pat.len(),
                ));
                assert(occurs_at(s, pat, i + 1));
            }
        }
        lemma_replace_absent(s.drop_first(), pat, rep);
        assert(seq![s[0]] + s.drop_first() =~= s);
    }
}

} // verus!
