use vstd::prelude::*;

use uuid::Uuid;

verus! {

#[verifier::external_type_specification]
#[verifier::external_body]
pub struct ExUuidError(uuid::Error);

/// The 128-bit value of the iid that `uuid::Uuid::parse_str` reads from this
/// text, or `None` when it rejects the text.
pub uninterp spec fn uuid_parse(text: Seq<char>) -> Option<u128>;

/// Calls `uuid::Uuid::parse_str` (which `Iid::from_str` is) and converts the
/// result with `as_u128`. Trusted: the outcome is the named parse of the text.
#[verifier::external_body]
pub fn parse_iid(text: &str) -> (r: Result<u128, uuid::Error>)
    ensures
        r is Ok <==> uuid_parse(text@) is Some,
        r matches Ok(v) ==> uuid_parse(text@) == Some(v),
{
    match Uuid::parse_str(text) {
        Ok(u) => Ok(u.as_u128()),
        Err(e) => Err(e),
    }
}

/// The iids read from each text, or the position of the first text that is
/// not an iid.
pub open spec fn parse_all(texts: Seq<Seq<char>>) -> Result<Seq<u128>, int>
    decreases texts.len(),
{
    if texts.len() == 0 {
        Ok(seq![])
    } else {
        match parse_all(texts.drop_last()) {
            Err(i) => Err(i),
            Ok(rest) => match uuid_parse(texts.last()) {
                Some(v) => Ok(rest.push(v)),
                None => Err(texts.len() - 1),
            },
        }
    }
}

/// Reads an iid from each text, in order; stops at the first text that is not
/// an iid and returns its error.
pub fn parse_iids(texts: &[String]) -> (r: Result<Vec<u128>, uuid::Error>)
    ensures
        r is Ok <==> parse_all(texts@.map_values(|t: String| t@)) is Ok,
        r matches Ok(v) ==> parse_all(texts@.map_values(|t: String| t@)) == Ok::<Seq<u128>, int>(v@),
{
    let ghost views = texts@.map_values(|t: String| t@);
    let mut out: Vec<u128> = Vec::new();
    let mut i: usize = 0;
    while i < texts.len()
        invariant
            i <= texts@.len(),
            views == texts@.map_values(|t: String| t@),
            parse_all(views.take(i as int)) == Ok::<Seq<u128>, int>(out@),
        decreases texts@.len() - i,
    {
        proof {
            assert(views.take(i + 1).drop_last() =~= views.take(i as int));
            assert(views.take(i + 1).last() == texts@[i as int]@);
        }
        match parse_iid(texts[i].as_str()) {
            Ok(v) => {
                out.push(v);
            },
            Err(e) => {
                proof {
                    lemma_parse_all_prefix_err(views, i as int + 1);
                }
                return Err(e);
            },
        }
        i = i + 1;
    }
    assert(views.take(texts@.len() as int) =~= views);
    Ok(out)
}

/// The items of `s` in order of first occurrence, each once: what collecting
/// iids into a set keeps.
pub open spec fn distinct<A>(s: Seq<A>) -> Seq<A>
    decreases s.len(),
{
    if s.len() == 0 {
        seq![]
    } else {
        let rest = distinct(s.drop_last());
        if rest.contains(s.last()) {
            rest
        } else {
            rest.push(s.last())
        }
    }
}

/// `distinct(s)` holds exactly the items of `s`, none twice.
pub proof fn lemma_distinct<A>(s: Seq<A>)
    ensures
        distinct(s).no_duplicates(),
        forall|x: A| #[trigger] distinct(s).contains(x) <==> s.contains(x),
    decreases s.len(),
{
    if s.len() > 0 {
        let w = s.drop_last();
        lemma_distinct(w);
        let rest = distinct(w);
        assert(s =~= w.push(s.last()));
        assert forall|x: A| #[trigger] distinct(s).contains(x) <==> s.contains(x) by {
            if s.contains(x) && x != s.last() {
                let j = choose|j: int| 0 <= j < s.len() && s[j] == x;
                assert(w[j] == x);
            }
            if w.contains(x) {
                let j = choose|j: int| 0 <= j < w.len() && w[j] == x;
                assert(s[j] == x);
            }
            assert(s[s.len() - 1] == s.last());
            if !rest.contains(s.last()) {
                let r2 = rest.push(s.last());
                assert(r2[rest.len() as int] == s.last());
                if rest.contains(x) {
                    let j = choose|j: int| 0 <= j < rest.len() && rest[j] == x;
                    assert(r2[j] == x);
                }
                if r2.contains(x) && x != s.last() {
                    let j = choose|j: int| 0 <= j < r2.len() && r2[j] == x;
                    assert(rest[j] == x);
                }
            }
        }
    }
}

/// The iids of `v` collected as a set: in order of first occurrence, each once.
pub fn collect_iid_set(v: &Vec<u128>) -> (r: Vec<u128>)
    ensures
        r@ == distinct(v@),
        r@.no_duplicates(),
        forall|x: u128| #[trigger] r@.contains(x) <==> v@.contains(x),
{
    let mut out: Vec<u128> = Vec::new();
    let mut i: usize = 0;
    while i < v.len()
        invariant
            i <= v@.len(),
            out@ == distinct(v@.take(i as int)),
        decreases v@.len() - i,
    {
        let x = v[i];
        proof {
            assert(v@.take(i + 1).drop_last() =~= v@.take(i as int));
            assert(v@.take(i + 1).last() == x);
        }
        let mut seen = false;
        let mut j: usize = 0;
        while j < out.len()
            invariant
                j <= out@.len(),
                seen <==> exists|k: int| 0 <= k < j && out@[k] == x,
            decreases out@.len() - j,
        {
            if out[j] == x {
                seen = true;
            }
            j = j + 1;
        }
        if !seen {
            out.push(x);
        }
        i = i + 1;
    }
    assert(v@.take(v@.len() as int) =~= v@);
    proof {
        lemma_distinct(v@);
    }
    out
}

/// Reads an iid from each text and collects them as a set (in order of first
/// occurrence); stops at the first text that is not an iid.
pub fn parse_iid_set(texts: &[String]) -> (r: Result<Vec<u128>, uuid::Error>)
    ensures
        r is Ok <==> parse_all(texts@.map_values(|t: String| t@)) is Ok,
        r matches Ok(v) ==> parse_all(texts@.map_values(|t: String| t@)) matches Ok(all) && v@ == distinct(all),
{
    match parse_iids(texts) {
        Ok(all) => Ok(collect_iid_set(&all)),
        Err(e) => Err(e),
    }
}

/// A failure in a prefix is a failure of the whole.
pub proof fn lemma_parse_all_prefix_err(texts: Seq<Seq<char>>, k: int)
    requires
        0 <= k <= texts.len(),
        parse_all(texts.take(k)) is Err,
    ensures
        parse_all(texts) is Err,
    decreases texts.len() - k,
{
    if k < texts.len() {
        assert(texts.take(k + 1).drop_last() =~= texts.take(k));
        lemma_parse_all_prefix_err(texts, k + 1);
    } else {
        assert(texts.take(k) =~= texts);
    }
}

} // verus!
