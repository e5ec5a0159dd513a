use vstd::prelude::*;

use crate::doxie::DoxieError;
use crate::urls::{url_origin_ascii, url_origin_ascii_of, url_parse, url_parse_norm};

verus! {

/// The service-type identifier the target device answers discovery with.
pub open spec fn doxie_urn() -> Seq<char> {
    "schemas-getdoxie-com:device:Scanner:1"@
}

/// One discovery response, reduced to the two header fields the search
/// reads: the advertised service target and the advertised location.
#[derive(Clone, Debug)]
pub struct SsdpResponse {
    pub urn: String,
    pub location: String,
}

/// The locations of the responses that advertise the target service type,
/// in arrival order.
pub open spec fn matching_locations(rs: Seq<SsdpResponse>) -> Seq<Seq<char>>
    decreases rs.len(),
{
    if rs.len() == 0 {
        Seq::empty()
    } else {
        let rest = matching_locations(rs.drop_last());
        if rs.last().urn@ == doxie_urn() {
            rest.push(rs.last().location@)
        } else {
            rest
        }
    }
}

/// What a search over matching locations yields: nothing when there is no
/// match; `MalformedDeviceResponse` when some match's location is not a
/// URL; else the origin of the last match's location.
pub open spec fn discovery_outcome(ms: Seq<Seq<char>>) -> Result<Option<Seq<char>>, DoxieError>
    decreases ms.len(),
{
    if ms.len() == 0 {
        Ok(None)
    } else {
        match discovery_outcome(ms.drop_last()) {
            Err(e) => Err(e),
            Ok(_) => match url_parse_norm(ms.last()) {
                None => Err(DoxieError::MalformedDeviceResponse),
                Some(n) => Ok(Some(url_origin_ascii_of(n))),
            },
        }
    }
}

/// The only error a search can end in is a malformed location.
proof fn lemma_outcome_err_is_malformed(ms: Seq<Seq<char>>)
    requires
        discovery_outcome(ms) is Err,
    ensures
        discovery_outcome(ms)->Err_0 == DoxieError::MalformedDeviceResponse,
    decreases ms.len(),
{
    if ms.len() > 0 && discovery_outcome(ms.drop_last()) is Err {
        lemma_outcome_err_is_malformed(ms.drop_last());
    }
}

/// Once a prefix of the matches ends in an error, every extension of it
/// ends in that error.
proof fn lemma_outcome_err_extends(ms: Seq<Seq<char>>, k: int)
    requires
        0 <= k <= ms.len(),
        discovery_outcome(ms.subrange(0, k)) is Err,
    ensures
        discovery_outcome(ms) is Err,
    decreases ms.len() - k,
{
    if k < ms.len() {
        assert(ms.subrange(0, k + 1).drop_last() =~= ms.subrange(0, k));
        lemma_outcome_err_extends(ms, k + 1);
    } else {
        assert(ms.subrange(0, k) =~= ms);
    }
}

/// Searches the collected responses for the target device and yields the
/// origin of the last matching response's location; responses advertising
/// any other service type never affect the result.
pub fn discover_doxie(responses: &Vec<SsdpResponse>) -> (r: Result<Option<String>, DoxieError>)
    ensures
        (r is Ok) == (discovery_outcome(matching_locations(responses@)) is Ok),
        r is Err ==> r->Err_0 == discovery_outcome(matching_locations(responses@))->Err_0,
        r is Ok ==> {
            let found = discovery_outcome(matching_locations(responses@))->Ok_0;
            &&& (r->Ok_0 is Some) == (found is Some)
            &&& (r->Ok_0 is Some ==> r->Ok_0->0@ == found->0)
        },
{
    let target: String = "schemas-getdoxie-com:device:Scanner:1".to_owned();
    let mut found: Option<String> = None;
    let mut i: usize = 0;
    while i < responses.len()
        invariant
            0 <= i <= responses@.len(),
            target@ == doxie_urn(),
            discovery_outcome(matching_locations(responses@.subrange(0, i as int))) is Ok,
            (found is Some) == (discovery_outcome(
                matching_locations(responses@.subrange(0, i as int)),
            )->Ok_0 is Some),
            found is Some ==> found->0@ == discovery_outcome(
                matching_locations(responses@.subrange(0, i as int)),
            )->Ok_0->0,
        decreases responses@.len() - i,
    {
        let ghost prefix = responses@.subrange(0, i as int);
        let ghost prefix1 = responses@.subrange(0, i + 1);
        proof {
            assert(prefix1.drop_last() =~= prefix);
            assert(prefix1.last() == responses@[i as int]);
        }
        let resp = &responses[i];
        if resp.urn == target {
            proof {
                assert(matching_locations(prefix1) == matching_locations(prefix).push(
                    resp.location@,
                ));
                assert(matching_locations(prefix1).drop_last() =~= matching_locations(prefix));
            }
            match url_parse(resp.location.as_str()) {
                Ok(u) => {
                    found = Some(url_origin_ascii(&u));
                },
                Err(_) => {
                    proof {
                        let ghost full = matching_locations(responses@);
                        assert(discovery_outcome(matching_locations(prefix1)) is Err);
                        lemma_matching_prefix(responses@, i + 1);
                        lemma_outcome_err_extends(
                            full,
                            matching_locations(prefix1).len() as int,
                        );
                        lemma_outcome_err_is_malformed(full);
                    }
                    return Err(DoxieError::MalformedDeviceResponse);
                },
            }
        }
        i = i + 1;
    }
    proof {
        assert(responses@.subrange(0, responses@.len() as int) =~= responses@);
    }
    Ok(found)
}

/// The matches of a prefix of the responses are a prefix of the matches of
/// the whole.
proof fn lemma_matching_prefix(rs: Seq<SsdpResponse>, k: int)
    requires
        0 <= k <= rs.len(),
    ensures
        matching_locations(rs.subrange(0, k)).len() <= matching_locations(rs).len(),
        matching_locations(rs).subrange(
            0,
            matching_locations(rs.subrange(0, k)).len() as int,
        ) == matching_locations(rs.subrange(0, k)),
    decreases rs.len() - k,
{
    if k < rs.len() {
        assert(rs.subrange(0, k + 1).drop_last() =~= rs.subrange(0, k));
        assert(rs.subrange(0, k + 1).last() == rs[k]);
        lemma_matching_prefix(rs, k + 1);
        let mk = matching_locations(rs.subrange(0, k));
        let mk1 = matching_locations(rs.subrange(0, k + 1));
        assert(mk1.subrange(0, mk.len() as int) =~= mk);
        assert(matching_locations(rs).subrange(0, mk.len() as int) =~= matching_locations(
            rs,
        ).subrange(0, mk1.len() as int).subrange(0, mk.len() as int));
    } else {
        assert(rs.subrange(0, k) =~= rs);
    }
}

/// Inserting a response that advertises another service type anywhere in
/// the stream leaves the matching locations — and with them the whole
/// discovery outcome — unchanged.
pub proof fn lemma_discovery_ignores_nonmatching(rs: Seq<SsdpResponse>, i: int, x: SsdpResponse)
    requires
        0 <= i <= rs.len(),
        x.urn@ != doxie_urn(),
    ensures
        matching_locations(rs.insert(i, x)) == matching_locations(rs),
        discovery_outcome(matching_locations(rs.insert(i, x))) == discovery_outcome(
            matching_locations(rs),
        ),
    decreases rs.len(),
{
    let ext = rs.insert(i, x);
    if i == rs.len() {
        assert(ext.drop_last() =~= rs);
        assert(ext.last() == x);
    } else {
        assert(ext.drop_last() =~= rs.drop_last().insert(i, x));
        assert(ext.last() == rs.last());
        lemma_discovery_ignores_nonmatching(rs.drop_last(), i, x);
    }
}

} // verus!
