//! Track projections: what the Player reports about a track, and the
//! read-only [`TrackInfo`] projection sent to clients.
//!
//! A [`TrackData`] is the plain image of one track as an external search
//! or lookup returned it; its id is optional because the Player may
//! report tracks that lack a resolvable id. Such tracks are dropped from
//! everything shown to clients.

use vstd::prelude::*;

verus! {

/// One track as the Player reported it.
pub struct TrackData {
    pub id: Option<String>,
    pub name: String,
    pub artists: Vec<String>,
}

/// Mathematical image of a [`TrackData`].
#[verifier::ext_equal]
pub ghost struct TrackDataV {
    pub id: Option<Seq<char>>,
    pub name: Seq<char>,
    pub artists: Seq<Seq<char>>,
}

/// The views of a vector of strings.
pub open spec fn strs_view(ss: Seq<String>) -> Seq<Seq<char>> {
    ss.map_values(|s: String| s@)
}

impl View for TrackData {
    type V = TrackDataV;

    open spec fn view(&self) -> TrackDataV {
        TrackDataV {
            id: crate::store::opt_str_view(self.id),
            name: self.name@,
            artists: strs_view(self.artists@),
        }
    }
}

/// The read-only projection of a track that clients see.
pub struct TrackInfo {
    pub name: String,
    pub artists: Vec<String>,
    pub id: String,
}

/// Mathematical image of a [`TrackInfo`].
#[verifier::ext_equal]
pub ghost struct TrackInfoV {
    pub name: Seq<char>,
    pub artists: Seq<Seq<char>>,
    pub id: Seq<char>,
}

impl View for TrackInfo {
    type V = TrackInfoV;

    open spec fn view(&self) -> TrackInfoV {
        TrackInfoV { name: self.name@, artists: strs_view(self.artists@), id: self.id@ }
    }
}

/// The views of a vector of track projections.
pub open spec fn infos_view(ts: Seq<TrackInfo>) -> Seq<TrackInfoV> {
    ts.map_values(|t: TrackInfo| t@)
}

/// The views of a vector of reported tracks.
pub open spec fn datas_view(ts: Seq<TrackData>) -> Seq<TrackDataV> {
    ts.map_values(|t: TrackData| t@)
}

/// Whether a reported track carries a resolvable id.
pub open spec fn resolvable(t: TrackDataV) -> bool {
    t.id is Some
}

/// The client projection of a resolvable reported track.
pub open spec fn to_info(t: TrackDataV) -> TrackInfoV {
    TrackInfoV {
        name: t.name,
        artists: t.artists,
        id: match t.id {
            Option::Some(i) => i,
            Option::None => Seq::empty(),
        },
    }
}

/// The client projections of the resolvable tracks of a report, in
/// report order.
pub open spec fn spec_resolve_list(ts: Seq<TrackDataV>) -> Seq<TrackInfoV> {
    ts.filter(|t: TrackDataV| t.id is Some).map_values(|t: TrackDataV| to_info(t))
}

/// A vector of the same strings.
fn clone_strings(ss: &Vec<String>) -> (r: Vec<String>)
    ensures
        strs_view(r@) == strs_view(ss@),
{
    let mut r: Vec<String> = Vec::new();
    let mut i: usize = 0;
    while i < ss.len()
        invariant
            i <= ss@.len(),
            r@.len() == i,
            forall|j: int| 0 <= j < i ==> (#[trigger] r@[j])@ == ss@[j]@,
        decreases ss@.len() - i,
    {
        r.push(ss[i].clone());
        i = i + 1;
    }
    proof {
        assert(strs_view(r@) =~= strs_view(ss@));
    }
    r
}

/// The tracks answering one search, capped and cleaned.
pub struct SearchResult {
    pub tracks: Vec<TrackInfo>,
}

/// What a search reply holds for a given report: the projections of the
/// resolvable tracks, in order, capped at [`crate::SEARCH_RESULT_CAP`].
pub open spec fn spec_search_results(ts: Seq<TrackDataV>) -> Seq<TrackInfoV> {
    let all = spec_resolve_list(ts);
    if all.len() <= crate::SEARCH_RESULT_CAP {
        all
    } else {
        all.take(crate::SEARCH_RESULT_CAP as int)
    }
}

/// Map one search report to the reply sent to the asking client: every
/// track lacking a resolvable id is dropped, order is kept, and at most
/// [`crate::SEARCH_RESULT_CAP`] results are returned.
pub fn get_search_results(items: &Vec<TrackData>) -> (r: SearchResult)
    ensures
        r.tracks@.len() <= crate::SEARCH_RESULT_CAP,
        infos_view(r.tracks@) == spec_search_results(datas_view(items@)),
{
    let ghost all = datas_view(items@);
    let mut out: Vec<TrackInfo> = Vec::new();
    let mut i: usize = 0;
    proof {
        assert(all.take(0) =~= Seq::<TrackDataV>::empty());
        assert(infos_view(out@) =~= spec_resolve_list(all.take(0)));
    }
    while i < items.len() && out.len() < crate::SEARCH_RESULT_CAP
        invariant
            i <= items@.len(),
            all == datas_view(items@),
            out@.len() <= crate::SEARCH_RESULT_CAP,
            infos_view(out@) == spec_resolve_list(all.take(i as int)),
            out@.len() < crate::SEARCH_RESULT_CAP ==> i <= items@.len(),
        decreases items@.len() - i,
    {
        proof {
            assert(all.take(i as int + 1) =~= all.take(i as int).push(all[i as int]));
            crate::store::lemma_filter_push(
                all.take(i as int),
                |t: TrackDataV| t.id is Some,
                all[i as int],
            );
            assert(all[i as int] == items@[i as int]@);
        }
        match resolve_track(&items[i]) {
            Some(info) => {
                let ghost prev = infos_view(out@);
                out.push(info);
                proof {
                    assert(infos_view(out@) =~= prev.push(to_info(all[i as int])));
                    assert(spec_resolve_list(all.take(i as int + 1)) =~= spec_resolve_list(
                        all.take(i as int),
                    ).push(to_info(all[i as int])));
                    assert(all[i as int].id == Option::Some(to_info(all[i as int]).id));
                }
            },
            None => {
                proof {
                    assert(spec_resolve_list(all.take(i as int + 1)) =~= spec_resolve_list(
                        all.take(i as int),
                    ));
                }
            },
        }
        i = i + 1;
    }
    proof {
        let full = spec_resolve_list(all);
        if i == items@.len() {
            assert(all.take(i as int) =~= all);
            assert(infos_view(out@) == full);
            assert(full.len() <= crate::SEARCH_RESULT_CAP);
        } else {
            // stopped at the cap: what is resolved so far is a prefix of
            // the full resolution, and exactly the first cap entries
            assert(out@.len() == crate::SEARCH_RESULT_CAP);
            assert(all =~= all.take(i as int) + all.skip(i as int));
            broadcast use vstd::seq_lib::group_filter_ensures;

            assert((all.take(i as int) + all.skip(i as int)).filter(|t: TrackDataV| t.id is Some)
                == all.take(i as int).filter(|t: TrackDataV| t.id is Some) + all.skip(
                i as int,
            ).filter(|t: TrackDataV| t.id is Some));
            assert(full =~= spec_resolve_list(all.take(i as int)) + spec_resolve_list(
                all.skip(i as int),
            ));
            assert(full.take(crate::SEARCH_RESULT_CAP as int) =~= infos_view(out@));
        }
    }
    SearchResult { tracks: out }
}

/// Whether some reported track carries exactly this id.
pub open spec fn reported_with_id(ts: Seq<TrackDataV>, id: Seq<char>) -> bool {
    exists|j: int| 0 <= j < ts.len() && (#[trigger] ts[j]).id == Option::Some(id)
}

/// Law: a search reply never includes a track whose report lacked a
/// resolvable id — every reply entry's id is the id of some resolvable
/// reported track.
pub proof fn lemma_search_results_resolvable(ts: Seq<TrackDataV>)
    ensures
        forall|k: int|
            0 <= k < spec_search_results(ts).len() ==> reported_with_id(
                ts,
                (#[trigger] spec_search_results(ts)[k]).id,
            ),
{
    lemma_resolve_list_sources(ts);
    let all = spec_resolve_list(ts);
    assert forall|k: int| 0 <= k < spec_search_results(ts).len() implies reported_with_id(
        ts,
        (#[trigger] spec_search_results(ts)[k]).id,
    ) by {
        assert(spec_search_results(ts)[k] == all[k]);
        assert(reported_with_id(ts, all[k].id));
    }
}

pub proof fn lemma_resolve_list_sources(ts: Seq<TrackDataV>)
    ensures
        forall|k: int|
            0 <= k < spec_resolve_list(ts).len() ==> reported_with_id(
                ts,
                (#[trigger] spec_resolve_list(ts)[k]).id,
            ),
    decreases ts.len(),
{
    reveal(Seq::filter);
    if ts.len() > 0 {
        let d = ts.drop_last();
        let x = ts.last();
        lemma_resolve_list_sources(d);
        assert(forall|i: int| 0 <= i < d.len() ==> #[trigger] d[i] == ts[i]);
        let f = spec_resolve_list(ts);
        let fd = spec_resolve_list(d);
        if x.id is Some {
            assert(f =~= fd.push(to_info(x)));
        } else {
            assert(f =~= fd);
        }
        assert forall|k: int| 0 <= k < f.len() implies reported_with_id(
            ts,
            (#[trigger] f[k]).id,
        ) by {
            if k < fd.len() {
                assert(f[k] == fd[k]);
                assert(reported_with_id(d, fd[k].id));
                let j = choose|j: int|
                    0 <= j < d.len() && (#[trigger] d[j]).id == Option::Some(fd[k].id);
                assert(ts[j].id == Option::Some(f[k].id));
            } else {
                assert(f[k] == to_info(x));
                assert(ts[ts.len() - 1].id == Option::Some(f[k].id));
            }
        }
    }
}

/// The client projection of one reported track: `None` when the track
/// lacks a resolvable id.
pub fn resolve_track(t: &TrackData) -> (r: Option<TrackInfo>)
    ensures
        r is Some <==> resolvable(t@),
        r matches Some(info) ==> info@ == to_info(t@),
{
    match &t.id {
        None => None,
        Some(id) => Some(
            TrackInfo { name: t.name.clone(), artists: clone_strings(&t.artists), id: id.clone() },
        ),
    }
}

} // verus!
