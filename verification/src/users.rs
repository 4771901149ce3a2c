//! Compute-only pieces of the user-listing endpoint: extracting the
//! `localId` query parameter (percent-decoded), reading a document's own
//! identifier out of its full resource name, and filtering the caller out
//! of the user list.

use vstd::prelude::*;

verus! {

/// The query key whose value names the caller.
pub open spec fn local_id_key() -> Seq<char> {
    "localId="@
}

/// The longest prefix of `s` holding no `c`.
pub open spec fn take_until(s: Seq<char>, c: char) -> Seq<char>
    decreases s.len(),
{
    if s.len() == 0 {
        Seq::empty()
    } else if s[0] == c {
        Seq::empty()
    } else {
        seq![s[0]] + take_until(s.drop_first(), c)
    }
}

/// The `&`-separated segments of a query string. An empty query has one
/// empty segment, as splitting does.
pub open spec fn segments(q: Seq<char>) -> Seq<Seq<char>>
    decreases q.len(),
{
    if q.len() == 0 {
        seq![Seq::<char>::empty()]
    } else if q[0] == '&' {
        seq![Seq::<char>::empty()] + segments(q.drop_first())
    } else {
        let rest = segments(q.drop_first());
        rest.update(0, seq![q[0]] + rest[0])
    }
}

/// The raw value of the first segment carrying the `localId` key: what
/// stands after the key, up to the next `=` of that segment; none when no
/// segment starts with the key.
pub open spec fn param_from_segments(ss: Seq<Seq<char>>) -> Option<Seq<char>>
    decreases ss.len(),
{
    if ss.len() == 0 {
        None
    } else if local_id_key().is_prefix_of(ss[0]) {
        Some(take_until(ss[0].skip(local_id_key().len() as int), '='))
    } else {
        param_from_segments(ss.drop_first())
    }
}

/// The raw (still percent-encoded) `localId` value of a query string.
pub open spec fn local_id_param_spec(q: Seq<char>) -> Option<Seq<char>> {
    param_from_segments(segments(q))
}

/// What `urlencoding::decode` returns for a given character sequence:
/// the decoded text, or none when the percent-escapes are not valid
/// UTF-8.
pub uninterp spec fn url_decoded(s: Seq<char>) -> Option<Seq<char>>;

/// The caller's identifier as the user-listing endpoint reads it: the raw
/// `localId` value, percent-decoded, with every failure (absent key or
/// undecodable value) read as the empty string.
pub open spec fn decoded_local_id(q: Seq<char>) -> Seq<char> {
    match local_id_param_spec(q) {
        Some(v) => match url_decoded(v) {
            Some(d) => d,
            None => Seq::empty(),
        },
        None => Seq::empty(),
    }
}

/// Whether `s` holds no percent sign, so decoding leaves it unchanged.
pub open spec fn percent_free(s: Seq<char>) -> bool {
    forall|i: int| 0 <= i < s.len() ==> s[i] != '%'
}

/// Relies on `urlencoding::decode`: percent-decodes a string assuming
/// UTF-8, failing only on invalid UTF-8 escapes. The result depends on
/// the input characters alone, and an input without `%` comes back
/// unchanged.
#[verifier::external_body]
fn url_decode(s: &String) -> (r: Option<String>)
    ensures
        r.deep_view() == url_decoded(s@),
        percent_free(s@) ==> r.deep_view() == Some(s@),
{
    match urlencoding::decode(s) {
        Ok(c) => Some(c.into_owned()),
        Err(_) => None,
    }
}

fn find_char(s: &str, c: char) -> (r: Option<usize>)
    ensures
        match r {
            Some(i) => i < s@.len() && s@[i as int] == c && (forall|j: int|
                0 <= j < i ==> s@[j] != c),
            None => forall|j: int| 0 <= j < s@.len() ==> s@[j] != c,
        },
{
    let n = s.unicode_len();
    let mut i: usize = 0;
    while i < n
        invariant
            n == s@.len(),
            i <= n,
            forall|j: int| 0 <= j < i ==> s@[j] != c,
        decreases n - i,
    {
        if s.get_char(i) == c {
            return Some(i);
        }
        i = i + 1;
    }
    None
}

proof fn lemma_take_until_at(s: Seq<char>, c: char, i: int)
    requires
        0 <= i <= s.len(),
        forall|j: int| 0 <= j < i ==> s[j] != c,
        i < s.len() ==> s[i] == c,
    ensures
        take_until(s, c) == s.subrange(0, i),
    decreases s.len(),
{
    if s.len() == 0 || i == 0 {
        assert(take_until(s, c) =~= s.subrange(0, i));
    } else {
        let df = s.drop_first();
        assert(forall|j: int| 0 <= j < i - 1 ==> df[j] != c);
        lemma_take_until_at(df, c, i - 1);
        assert(seq![s[0]] + df.subrange(0, i - 1) =~= s.subrange(0, i));
    }
}

proof fn lemma_segments_nonempty(q: Seq<char>)
    ensures
        segments(q).len() >= 1,
    decreases q.len(),
{
    if q.len() > 0 {
        lemma_segments_nonempty(q.drop_first());
    }
}

proof fn lemma_segments_split(q: Seq<char>, i: int)
    requires
        0 <= i <= q.len(),
        forall|j: int| 0 <= j < i ==> q[j] != '&',
        i < q.len() ==> q[i] == '&',
    ensures
        i < q.len() ==> segments(q) == seq![q.subrange(0, i)] + segments(
            q.subrange(i + 1, q.len() as int),
        ),
        i == q.len() ==> segments(q) == seq![q],
    decreases q.len(),
{
    if q.len() == 0 {
        assert(q =~= Seq::<char>::empty());
        assert(segments(q) =~= seq![q]);
    } else if i == 0 {
        assert(q.subrange(0, 0) =~= Seq::<char>::empty());
        assert(q.subrange(1, q.len() as int) =~= q.drop_first());
    } else {
        let df = q.drop_first();
        assert(forall|j: int| 0 <= j < i - 1 ==> df[j] != '&');
        lemma_segments_split(df, i - 1);
        lemma_segments_nonempty(df);
        let rest = segments(df);
        if i < q.len() {
            let tail = segments(df.subrange(i as int, df.len() as int));
            assert(rest == seq![df.subrange(0, i - 1)] + tail);
            assert(rest[0] == df.subrange(0, i - 1));
            assert(seq![q[0]] + df.subrange(0, i - 1) =~= q.subrange(0, i));
            assert(rest.update(0, seq![q[0]] + rest[0]) =~= seq![q.subrange(0, i)] + tail);
            assert(df.subrange(i as int, df.len() as int) =~= q.subrange(i + 1, q.len() as int));
        } else {
            assert(rest == seq![df]);
            assert(rest[0] == df);
            assert(seq![q[0]] + df =~= q);
            assert(rest.update(0, seq![q[0]] + rest[0]) =~= seq![q]);
        }
    }
}

fn has_local_id_key(seg: &str) -> (r: bool)
    ensures
        r == local_id_key().is_prefix_of(seg@),
{
    let key = "localId=";
    let klen = key.unicode_len();
    let n = seg.unicode_len();
    if n < klen {
        return false;
    }
    let pre = seg.substring_char(0, klen);
    let eq = String::from_str(pre) == String::from_str(key);
    proof {
        if local_id_key().is_prefix_of(seg@) {
            assert(local_id_key() =~= seg@.subrange(0, local_id_key().len() as int));
            assert(pre@ == key@);
        }
        if pre@ == key@ {
            assert(local_id_key() =~= seg@.subrange(0, local_id_key().len() as int));
        }
    }
    eq
}

fn param_value(seg: &str) -> (r: String)
    requires
        local_id_key().is_prefix_of(seg@),
    ensures
        r@ == take_until(seg@.skip(local_id_key().len() as int), '='),
{
    let key = "localId=";
    let klen = key.unicode_len();
    let n = seg.unicode_len();
    let tail = seg.substring_char(klen, n);
    proof {
        assert(tail@ == seg@.skip(local_id_key().len() as int));
    }
    match find_char(tail, '=') {
        Some(j) => {
            proof {
                lemma_take_until_at(tail@, '=', j as int);
            }
            String::from_str(tail.substring_char(0, j))
        },
        None => {
            proof {
                lemma_take_until_at(tail@, '=', tail@.len() as int);
                assert(tail@.subrange(0, tail@.len() as int) =~= tail@);
            }
            String::from_str(tail)
        },
    }
}

/// The raw `localId` value of `query`: the first `&`-segment starting
/// with `localId=`, stripped of the key and cut at its next `=`; none
/// when no segment carries the key.
pub fn local_id_param(query: &str) -> (r: Option<String>)
    ensures
        r.deep_view() == local_id_param_spec(query@),
    decreases query@.len(),
{
    let n = query.unicode_len();
    let amp = find_char(query, '&');
    let seg_end: usize = match amp {
        Some(i) => i,
        None => n,
    };
    proof {
        lemma_segments_split(query@, seg_end as int);
    }
    let seg = query.substring_char(0, seg_end);
    proof {
        lemma_segments_nonempty(query@);
        if seg_end == n {
            assert(seg@ =~= query@);
        }
        assert(segments(query@)[0] == seg@);
    }
    if has_local_id_key(seg) {
        let v = param_value(seg);
        proof {
            assert(param_from_segments(segments(query@)) == Some(
                take_until(seg@.skip(local_id_key().len() as int), '='),
            ));
        }
        Some(v)
    } else {
        match amp {
            Some(_) => {
                let rest = query.substring_char(seg_end + 1, n);
                proof {
                    assert(segments(query@).drop_first() =~= segments(rest@));
                    assert(param_from_segments(segments(query@)) == param_from_segments(
                        segments(rest@),
                    ));
                }
                local_id_param(rest)
            },
            None => {
                proof {
                    assert(segments(query@) == seq![query@]);
                    assert(segments(query@).drop_first() =~= Seq::<Seq<char>>::empty());
                    assert(param_from_segments(Seq::<Seq<char>>::empty()) == None::<Seq<char>>);
                    assert(param_from_segments(segments(query@)) == None::<Seq<char>>);
                }
                None
            },
        }
    }
}

/// The caller's identifier as the user-listing endpoint reads it from the
/// request's query string: the `localId` value percent-decoded, or the
/// empty string when the key is absent or its value does not decode.
pub fn find_local_id(query: &String) -> (r: String)
    ensures
        r@ == decoded_local_id(query@),
{
    match local_id_param(query.as_str()) {
        Some(v) => match url_decode(&v) {
            Some(d) => d,
            None => String::new(),
        },
        None => String::new(),
    }
}

/// What stands after the last `/` of a resource name; the whole name when
/// it holds no `/`.
pub open spec fn after_last_slash(s: Seq<char>) -> Seq<char>
    decreases s.len(),
{
    if s.len() == 0 {
        Seq::empty()
    } else if s.last() == '/' {
        Seq::empty()
    } else {
        after_last_slash(s.drop_last()).push(s.last())
    }
}

proof fn lemma_after_last_slash_at(s: Seq<char>, start: int)
    requires
        0 <= start <= s.len(),
        forall|j: int| start <= j < s.len() ==> s[j] != '/',
        start > 0 ==> s[start - 1] == '/',
    ensures
        after_last_slash(s) == s.subrange(start, s.len() as int),
    decreases s.len(),
{
    if s.len() == 0 {
        assert(after_last_slash(s) =~= s.subrange(0, 0));
    } else if s.last() == '/' {
        assert(start == s.len());
        assert(after_last_slash(s) =~= s.subrange(start, s.len() as int));
    } else {
        let dl = s.drop_last();
        assert(start < s.len());
        assert(forall|j: int| start <= j < dl.len() ==> dl[j] != '/');
        lemma_after_last_slash_at(dl, start);
        assert(dl.subrange(start, dl.len() as int).push(s.last()) =~= s.subrange(
            start,
            s.len() as int,
        ));
    }
}

/// Reads a document's own identifier out of its full resource name: the
/// text after the last `/`, or the whole name when it holds none.
pub fn last_path_segment(name: &str) -> (r: String)
    ensures
        r@ == after_last_slash(name@),
{
    let n = name.unicode_len();
    let mut start: usize = 0;
    let mut i: usize = 0;
    while i < n
        invariant
            n == name@.len(),
            start <= i <= n,
            start > 0 ==> name@[start - 1] == '/',
            forall|j: int| start <= j < i ==> name@[j] != '/',
        decreases n - i,
    {
        if name.get_char(i) == '/' {
            start = i + 1;
        }
        i = i + 1;
    }
    proof {
        lemma_after_last_slash_at(name@, start as int);
    }
    String::from_str(name.substring_char(start, n))
}

/// The nicknames a caller is shown: every record's nickname but the
/// caller's own, in the order the store returned them.
pub open spec fn visible(users: Seq<(String, String)>, me: Seq<char>) -> Seq<Seq<char>>
    decreases users.len(),
{
    if users.len() == 0 {
        Seq::empty()
    } else {
        let init = visible(users.drop_last(), me);
        if users.last().0@ == me {
            init
        } else {
            init.push(users.last().1@)
        }
    }
}

/// Filters the caller's own record out of the user list and keeps only
/// the nicknames, in order. Records are `(identifier, nickname)` pairs.
pub fn visible_nicknames(users: &Vec<(String, String)>, local_id: &String) -> (r: Vec<String>)
    ensures
        r.deep_view() == visible(users@, local_id@),
{
    let n = users.len();
    let mut out: Vec<String> = Vec::new();
    let mut i: usize = 0;
    proof {
        assert(out.deep_view() =~= visible(users@.take(0), local_id@));
    }
    while i < n
        invariant
            n == users@.len(),
            i <= n,
            out.deep_view() == visible(users@.take(i as int), local_id@),
        decreases n - i,
    {
        let p = &users[i];
        proof {
            assert(users@.take(i + 1).drop_last() =~= users@.take(i as int));
            assert(users@.take(i + 1).last() == users@[i as int]);
        }
        if p.0 == *local_id {
        } else {
            let ghost before = out.deep_view();
            out.push(p.1.clone());
            proof {
                assert(out.deep_view() =~= before.push(users@[i as int].1@));
            }
        }
        i = i + 1;
    }
    proof {
        assert(users@.take(n as int) =~= users@);
    }
    out
}

} // verus!

