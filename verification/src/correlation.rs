//! Correlations: the sites of one effective profile with the same source, kind and
//! specifier, grouped by phase, and how observation compares with prediction.

use vstd::prelude::*;

use crate::json::{opt_value, Json, JsonModel};
use crate::matrix_facts::{correlated_models, CorrelatedModel, CorrelatedSite};
use crate::order::{
    collect, count_of, is_sorted_set, last_position, positions_of,
    positions_of_are_ascending_and_complete, sorted_set, TextIndex,
};
use crate::profile_matrix::{
    canonical_phase, phase_at, phase_name, phase_of, Phase, ProfileCorrelationRecord,
};
use crate::records::{EdgeRecord, SiteRecord};
use crate::text::{copy_texts, same, same_texts, texts};

verus! {

// ---------------------------------------------------------------------------------------
// Lists by phase
// ---------------------------------------------------------------------------------------

/// What rows of a phase and its texts hold.
pub open spec fn row_models(rows: Seq<(Phase, Vec<String>)>) -> Seq<(Phase, Seq<Seq<char>>)> {
    Seq::new(rows.len(), |i: int| (rows[i].0, texts(rows[i].1@)))
}

/// Which rows belong to a phase.
pub open spec fn row_in_phase<T>(rows: Seq<(Phase, T)>, phase: Phase) -> spec_fn(int) -> bool {
    |i: int| rows[i].0 == phase
}

/// Which phases have a row.
pub open spec fn phase_has_row<T>(rows: Seq<(Phase, T)>) -> spec_fn(int) -> bool {
    |place: int| count_of(rows.len() as int, row_in_phase(rows, phase_at(place))) > 0
}

/// The phases that have a row, in the order of their names.
pub open spec fn phases_with_rows<T>(rows: Seq<(Phase, T)>) -> Seq<Phase> {
    collect(4, phase_has_row(rows), |place: int| phase_at(place))
}

/// The texts of the first `count` rows that belong to a phase.
pub open spec fn texts_in_phase(
    rows: Seq<(Phase, Seq<Seq<char>>)>,
    phase: Phase,
    count: int,
) -> Seq<Seq<char>>
    decreases count,
{
    if count <= 0 {
        Seq::empty()
    } else if rows[count - 1].0 == phase {
        texts_in_phase(rows, phase, count - 1) + rows[count - 1].1
    } else {
        texts_in_phase(rows, phase, count - 1)
    }
}

/// Whether a list gives, for each phase that has a row, the phase's texts, each once,
/// ascending.
pub open spec fn is_texts_by_phase(
    list: Seq<(String, Vec<String>)>,
    rows: Seq<(Phase, Seq<Seq<char>>)>,
) -> bool {
    let phases = phases_with_rows(rows);
    &&& list.len() == phases.len()
    &&& forall|i: int|
        0 <= i < list.len() ==> (#[trigger] list[i]).0@ == phase_name(phases[i]) && is_sorted_set(
            texts(list[i].1@),
            texts_in_phase(rows, phases[i], rows.len() as int),
        )
}

/// What JSON values hold.
pub open spec fn json_models(values: Seq<Json>) -> Seq<JsonModel> {
    Seq::new(values.len(), |i: int| values[i]@)
}

/// What rows of a phase and a JSON value hold.
pub open spec fn json_row_models(rows: Seq<(Phase, Json)>) -> Seq<(Phase, JsonModel)> {
    Seq::new(rows.len(), |i: int| (rows[i].0, rows[i].1@))
}

/// The value of a row.
pub open spec fn row_value<T>(rows: Seq<(Phase, T)>) -> spec_fn(int) -> T {
    |i: int| rows[i].1
}

/// Whether a list gives, for each phase that has a row, the phase's values in order.
pub open spec fn is_values_by_phase(
    list: Seq<(String, Vec<Json>)>,
    rows: Seq<(Phase, JsonModel)>,
) -> bool {
    let phases = phases_with_rows(rows);
    &&& list.len() == phases.len()
    &&& forall|i: int|
        0 <= i < list.len() ==> (#[trigger] list[i]).0@ == phase_name(phases[i]) && json_models(list[i].1@)
            == collect(rows.len() as int, row_in_phase(rows, phases[i]), row_value(rows))
}

/// Groups texts by phase.
pub fn texts_by_phase(rows: &Vec<(Phase, Vec<String>)>) -> (result: Vec<(String, Vec<String>)>)
    ensures
        is_texts_by_phase(result@, row_models(rows@)),
{
    let ghost models = row_models(rows@);
    let ghost item = |place: int| phase_at(place);
    let mut result: Vec<(String, Vec<String>)> = Vec::new();
    let mut place: usize = 0;
    while place < 4
        invariant
            place <= 4,
            models == row_models(rows@),
            item == (|place: int| phase_at(place)),
            result.len() == collect(place as int, phase_has_row(models), item).len(),
            forall|i: int|
                0 <= i < result.len() ==> (#[trigger] result@[i]).0@ == phase_name(
                    collect(place as int, phase_has_row(models), item)[i],
                ) && is_sorted_set(
                    texts(result@[i].1@),
                    texts_in_phase(models, collect(place as int, phase_has_row(models), item)[i], models.len() as int),
                ),
        decreases 4 - place,
    {
        let phase = Phase::at(place);
        let mut found: bool = false;
        let mut values: Vec<String> = Vec::new();
        let mut i: usize = 0;
        assert(texts(values@) =~= Seq::empty());
        while i < rows.len()
            invariant
                i <= rows.len(),
                models == row_models(rows@),
                found == (count_of(i as int, row_in_phase(models, phase)) > 0),
                texts(values@) == texts_in_phase(models, phase, i as int),
            decreases rows.len() - i,
        {
            assert(models[i as int] == (rows@[i as int].0, texts(rows@[i as int].1@)));
            if rows[i].0 == phase {
                found = true;
                let mut copies = copy_texts(&rows[i].1);
                let ghost earlier = texts(values@);
                let ghost fresh = texts(copies@);
                values.append(&mut copies);
                assert(texts(values@) =~= earlier + fresh);
            }
            i = i + 1;
        }
        if found {
            result.push((String::from_str(phase.name()), sorted_set(values)));
        }
        place = place + 1;
    }
    result
}

/// Groups values by phase.
pub fn values_by_phase(rows: &Vec<(Phase, Json)>) -> (result: Vec<(String, Vec<Json>)>)
    ensures
        is_values_by_phase(result@, json_row_models(rows@)),
{
    let ghost models = json_row_models(rows@);
    let ghost item = |place: int| phase_at(place);
    let mut result: Vec<(String, Vec<Json>)> = Vec::new();
    let mut place: usize = 0;
    while place < 4
        invariant
            place <= 4,
            models == json_row_models(rows@),
            item == (|place: int| phase_at(place)),
            result.len() == collect(place as int, phase_has_row(models), item).len(),
            forall|i: int|
                0 <= i < result.len() ==> (#[trigger] result@[i]).0@ == phase_name(
                    collect(place as int, phase_has_row(models), item)[i],
                ) && json_models(result@[i].1@) == collect(
                    models.len() as int,
                    row_in_phase(models, collect(place as int, phase_has_row(models), item)[i]),
                    row_value(models),
                ),
        decreases 4 - place,
    {
        let phase = Phase::at(place);
        let mut values: Vec<Json> = Vec::new();
        let mut i: usize = 0;
        assert(json_models(values@) =~= Seq::empty());
        while i < rows.len()
            invariant
                i <= rows.len(),
                models == json_row_models(rows@),
                values.len() == count_of(i as int, row_in_phase(models, phase)),
                json_models(values@) == collect(i as int, row_in_phase(models, phase), row_value(models)),
            decreases rows.len() - i,
        {
            assert(models[i as int] == (rows@[i as int].0, rows@[i as int].1@));
            if rows[i].0 == phase {
                let ghost earlier = json_models(values@);
                let copy = rows[i].1.copy();
                values.push(copy);
                assert(json_models(values@) =~= earlier.push(copy@));
            }
            i = i + 1;
        }
        if values.len() > 0 {
            result.push((String::from_str(phase.name()), values));
        }
        place = place + 1;
    }
    result
}

// ---------------------------------------------------------------------------------------
// Drafts
// ---------------------------------------------------------------------------------------

/// A correlation before its conditions are united.
#[derive(Debug)]
pub struct CorrelationDraft {
    pub id: String,
    pub effective_profile_id: String,
    pub source: String,
    pub kind: String,
    pub specifier: String,
    pub conditions: Vec<(String, Vec<Json>)>,
    pub targets: Vec<(String, Vec<String>)>,
    pub resolutions: Vec<(String, Vec<String>)>,
    pub site_ids: Vec<(String, Vec<String>)>,
    pub edge_ids: Vec<(String, Vec<String>)>,
}

/// The identities of the correlated sites.
pub open spec fn correlated_ids(sites: Seq<SiteRecord>, correlated: Seq<CorrelatedModel>) -> Seq<Seq<char>> {
    Seq::new(correlated.len(), |i: int| sites[correlated[i].site].id@)
}

/// The correlated site that an edge was resolved from; the last of several with one
/// identity counts.
pub open spec fn linked_site(
    sites: Seq<SiteRecord>,
    correlated: Seq<CorrelatedModel>,
    edge: EdgeRecord,
) -> Option<int> {
    match edge.site_id {
        Some(site_id) => last_position(
            correlated_ids(sites, correlated),
            site_id@,
            correlated.len() as int,
        ),
        None => None,
    }
}

/// Which edges were resolved from a correlated site.
pub open spec fn edge_is_linked(
    sites: Seq<SiteRecord>,
    correlated: Seq<CorrelatedModel>,
    edges: Seq<EdgeRecord>,
) -> spec_fn(int) -> bool {
    |i: int| linked_site(sites, correlated, edges[i]) is Some
}

/// An edge with the correlation that it belongs to.
pub open spec fn edge_link(
    sites: Seq<SiteRecord>,
    correlated: Seq<CorrelatedModel>,
    keys: Seq<Seq<char>>,
    edges: Seq<EdgeRecord>,
) -> spec_fn(int) -> (int, Seq<char>) {
    |i: int| (i, keys[linked_site(sites, correlated, edges[i])->0])
}

/// The edges that were resolved from correlated sites, each with its correlation.
pub open spec fn edge_links(
    sites: Seq<SiteRecord>,
    correlated: Seq<CorrelatedModel>,
    keys: Seq<Seq<char>>,
    edges: Seq<EdgeRecord>,
) -> Seq<(int, Seq<char>)> {
    collect(
        edges.len() as int,
        edge_is_linked(sites, correlated, edges),
        edge_link(sites, correlated, keys, edges),
    )
}

/// The correlations of links.
pub open spec fn link_keys(links: Seq<(int, Seq<char>)>) -> Seq<Seq<char>> {
    Seq::new(links.len(), |i: int| links[i].1)
}

/// The rows of the members of a correlation, one value list for each member site.
pub open spec fn site_rows(
    sites: Seq<SiteRecord>,
    correlated: Seq<CorrelatedModel>,
    members: Seq<int>,
    values: spec_fn(SiteRecord) -> Seq<Seq<char>>,
) -> Seq<(Phase, Seq<Seq<char>>)> {
    Seq::new(
        members.len(),
        |i: int| (correlated[members[i]].phase, values(sites[correlated[members[i]].site])),
    )
}

/// The targets of a site.
pub open spec fn targets_of() -> spec_fn(SiteRecord) -> Seq<Seq<char>> {
    |site: SiteRecord| texts(site.target_ids@)
}

/// The resolution of a site.
pub open spec fn resolution_of() -> spec_fn(SiteRecord) -> Seq<Seq<char>> {
    |site: SiteRecord| seq![site.resolution_status@]
}

/// The identity of a site.
pub open spec fn identity_of() -> spec_fn(SiteRecord) -> Seq<Seq<char>> {
    |site: SiteRecord| seq![site.id@]
}

/// The conditions of the members of a correlation.
pub open spec fn condition_rows(
    sites: Seq<SiteRecord>,
    correlated: Seq<CorrelatedModel>,
    members: Seq<int>,
) -> Seq<(Phase, JsonModel)> {
    Seq::new(
        members.len(),
        |i: int| (correlated[members[i]].phase, sites[correlated[members[i]].site].condition@),
    )
}

/// The rows of the edges of a correlation.
pub open spec fn edge_rows(
    edges: Seq<EdgeRecord>,
    links: Seq<(int, Seq<char>)>,
    members: Seq<int>,
) -> Seq<(Phase, Seq<Seq<char>>)> {
    Seq::new(
        members.len(),
        |i: int| (phase_of(edges[links[members[i]].0].phase@), seq![edges[links[members[i]].0].id@]),
    )
}

/// Whether a draft gathers the sites and edges with the given correlation key.
pub open spec fn is_draft(
    draft: CorrelationDraft,
    key: Seq<char>,
    sites: Seq<SiteRecord>,
    edges: Seq<EdgeRecord>,
    correlated: Seq<CorrelatedModel>,
    keys: Seq<Seq<char>>,
    entry_ids: Seq<String>,
) -> bool {
    let members = positions_of(keys, key, keys.len() as int);
    let links = edge_links(sites, correlated, keys, edges);
    let linked = positions_of(link_keys(links), key, links.len() as int);
    let first = correlated[members[0]];
    &&& members.len() > 0
    &&& draft.id@ == key
    &&& draft.effective_profile_id@ == entry_ids[first.profile]@
    &&& draft.source@ == sites[first.site].source@
    &&& draft.kind@ == sites[first.site].kind@
    &&& draft.specifier@ == (match sites[first.site].specifier {
        Some(specifier) => specifier@,
        None => Seq::empty(),
    })
    &&& is_values_by_phase(draft.conditions@, condition_rows(sites, correlated, members))
    &&& is_texts_by_phase(draft.targets@, site_rows(sites, correlated, members, targets_of()))
    &&& is_texts_by_phase(draft.resolutions@, site_rows(sites, correlated, members, resolution_of()))
    &&& is_texts_by_phase(draft.site_ids@, site_rows(sites, correlated, members, identity_of()))
    &&& is_texts_by_phase(draft.edge_ids@, edge_rows(edges, links, linked))
}

fn single(value: &String) -> (result: Vec<String>)
    ensures
        texts(result@) == seq![value@],
{
    let mut result: Vec<String> = Vec::new();
    result.push(value.clone());
    assert(texts(result@) =~= seq![value@]);
    result
}

/// The edges that were resolved from correlated sites: their positions, and their
/// correlations.
fn links_of(
    sites: &Vec<SiteRecord>,
    edges: &Vec<EdgeRecord>,
    correlated: &Vec<CorrelatedSite>,
    keys: &Vec<String>,
) -> (result: (Vec<usize>, Vec<String>))
    requires
        keys.len() == correlated.len(),
        forall|i: int| 0 <= i < correlated.len() ==> (#[trigger] correlated@[i]).site < sites.len(),
    ensures
        ({
            let links = edge_links(sites@, correlated_models(correlated@), texts(keys@), edges@);
            &&& result.0.len() == links.len()
            &&& result.1.len() == links.len()
            &&& forall|i: int| 0 <= i < links.len() ==> (#[trigger] links[i]).0 == result.0@[i] && links[i].1
                == result.1@[i]@ && result.0@[i] < edges.len()
        }),
{
    let ghost models = correlated_models(correlated@);
    let mut ids: Vec<String> = Vec::new();
    let mut i: usize = 0;
    while i < correlated.len()
        invariant
            i <= correlated.len(),
            ids.len() == i,
            models == correlated_models(correlated@),
            forall|k: int| 0 <= k < correlated.len() ==> (#[trigger] correlated@[k]).site < sites.len(),
            forall|k: int| 0 <= k < i ==> ids@[k]@ == sites@[models[k].site].id@,
        decreases correlated.len() - i,
    {
        assert(models[i as int] == correlated@[i as int]@);
        ids.push(sites[correlated[i].site].id.clone());
        i = i + 1;
    }
    assert(texts(ids@) =~= correlated_ids(sites@, models));
    let index = TextIndex::new(ids);
    let ghost keep = edge_is_linked(sites@, models, edges@);
    let ghost item = edge_link(sites@, models, texts(keys@), edges@);
    let mut positions: Vec<usize> = Vec::new();
    let mut link_texts: Vec<String> = Vec::new();
    let mut i: usize = 0;
    while i < edges.len()
        invariant
            i <= edges.len(),
            keys.len() == models.len(),
            index.keys() == correlated_ids(sites@, models),
            keep == edge_is_linked(sites@, models, edges@),
            item == edge_link(sites@, models, texts(keys@), edges@),
            ({
                let links = collect(i as int, keep, item);
                &&& positions.len() == links.len()
                &&& link_texts.len() == links.len()
                &&& forall|k: int| 0 <= k < links.len() ==> (#[trigger] links[k]).0 == positions@[k] && links[k].1
                    == link_texts@[k]@ && positions@[k] < edges.len()
            }),
        decreases edges.len() - i,
    {
        if let Some(site_id) = &edges[i].site_id {
            if let Some(j) = index.last(site_id.as_str()) {
                positions.push(i);
                link_texts.push(keys[j].clone());
                assert(texts(keys@)[j as int] == keys@[j as int]@);
            }
        }
        i = i + 1;
    }
    (positions, link_texts)
}

/// Gathers the correlated sites into correlations, ascending by key. `keys` holds the
/// correlation key of each correlated site, `entry_ids` the effective profile of each
/// profile.
pub fn correlation_drafts(
    sites: &Vec<SiteRecord>,
    edges: &Vec<EdgeRecord>,
    correlated: &Vec<CorrelatedSite>,
    keys: &Vec<String>,
    entry_ids: &Vec<String>,
) -> (result: Vec<CorrelationDraft>)
    requires
        keys.len() == correlated.len(),
        forall|i: int|
            0 <= i < correlated.len() ==> (#[trigger] correlated@[i]).site < sites.len()
                && correlated@[i].profile < entry_ids.len(),
    ensures
        is_sorted_set(draft_ids(result@), texts(keys@)),
        forall|i: int|
            0 <= i < result.len() ==> is_draft(
                #[trigger] result@[i],
                result@[i].id@,
                sites@,
                edges@,
                correlated_models(correlated@),
                texts(keys@),
                entry_ids@,
            ),
{
    let ghost models = correlated_models(correlated@);
    let ghost key_texts = texts(keys@);
    let (link_positions, link_texts) = links_of(sites, edges, correlated, keys);
    let ghost links = edge_links(sites@, models, key_texts, edges@);
    assert(texts(link_texts@) =~= link_keys(links));
    let index = TextIndex::new(copy_texts(keys));
    let link_index = TextIndex::new(link_texts);
    let distinct = index.distinct();
    let mut result: Vec<CorrelationDraft> = Vec::new();
    let mut d: usize = 0;
    while d < distinct.len()
        invariant
            d <= distinct.len(),
            result.len() == d,
            keys.len() == correlated.len(),
            models == correlated_models(correlated@),
            key_texts == texts(keys@),
            links == edge_links(sites@, models, key_texts, edges@),
            index.keys() == key_texts,
            link_index.keys() == link_keys(links),
            link_positions.len() == links.len(),
            forall|i: int|
                0 <= i < links.len() ==> (#[trigger] links[i]).0 == link_positions@[i] && link_positions@[i]
                    < edges.len(),
            is_sorted_set(texts(distinct@), key_texts),
            forall|i: int|
                0 <= i < correlated.len() ==> (#[trigger] correlated@[i]).site < sites.len()
                    && correlated@[i].profile < entry_ids.len(),
            forall|i: int| 0 <= i < d ==> (#[trigger] result@[i]).id@ == distinct@[i]@,
            forall|i: int|
                0 <= i < d ==> is_draft(
                    #[trigger] result@[i],
                    result@[i].id@,
                    sites@,
                    edges@,
                    models,
                    key_texts,
                    entry_ids@,
                ),
        decreases distinct.len() - d,
    {
        let key = &distinct[d];
        let found = index.positions(key.as_str());
        let ghost members = positions_of(key_texts, key@, key_texts.len() as int);
        proof {
            let listed = Seq::new(found@.len(), |i: int| found@[i] as int);
            assert(listed == members);
            assert(texts(distinct@)[d as int] == key@);
            assert(texts(distinct@).contains(key@));
            assert(key_texts.contains(key@));
            positions_of_are_ascending_and_complete(key_texts, key@, key_texts.len() as int);
            let p = choose|p: int| 0 <= p < key_texts.len() && key_texts[p] == key@;
            assert(members.contains(p));
            assert(forall|k: int| 0 <= k < found.len() ==> #[trigger] members[k] == listed[k]);
        }
        let mut conditions: Vec<(Phase, Json)> = Vec::new();
        let mut targets: Vec<(Phase, Vec<String>)> = Vec::new();
        let mut resolutions: Vec<(Phase, Vec<String>)> = Vec::new();
        let mut identities: Vec<(Phase, Vec<String>)> = Vec::new();
        let mut i: usize = 0;
        while i < found.len()
            invariant
                i <= found.len(),
                found.len() == members.len(),
                models == correlated_models(correlated@),
                forall|k: int| 0 <= k < found.len() ==> #[trigger] members[k] == found@[k],
                forall|k: int| 0 <= k < found.len() ==> (#[trigger] found@[k]) < correlated.len(),
                forall|k: int| 0 <= k < correlated.len() ==> (#[trigger] correlated@[k]).site < sites.len(),
                conditions.len() == i,
                targets.len() == i,
                resolutions.len() == i,
                identities.len() == i,
                forall|k: int|
                    0 <= k < i ==> (#[trigger] conditions@[k]).0 == models[members[k]].phase && conditions@[k].1@
                        == sites@[models[members[k]].site].condition@,
                forall|k: int|
                    0 <= k < i ==> (#[trigger] targets@[k]).0 == models[members[k]].phase && texts(targets@[k].1@)
                        == texts(sites@[models[members[k]].site].target_ids@),
                forall|k: int|
                    0 <= k < i ==> (#[trigger] resolutions@[k]).0 == models[members[k]].phase && texts(
                        resolutions@[k].1@,
                    ) == seq![sites@[models[members[k]].site].resolution_status@],
                forall|k: int|
                    0 <= k < i ==> (#[trigger] identities@[k]).0 == models[members[k]].phase && texts(
                        identities@[k].1@,
                    ) == seq![sites@[models[members[k]].site].id@],
            decreases found.len() - i,
        {
            let entry = correlated[found[i]];
            assert(members[i as int] == found@[i as int]);
            assert(models[members[i as int]] == entry@);
            let site = &sites[entry.site];
            conditions.push((entry.phase, site.condition.copy()));
            targets.push((entry.phase, copy_texts(&site.target_ids)));
            resolutions.push((entry.phase, single(&site.resolution_status)));
            identities.push((entry.phase, single(&site.id)));
            i = i + 1;
        }
        assert(json_row_models(conditions@) =~= condition_rows(sites@, models, members));
        assert(row_models(targets@) =~= site_rows(sites@, models, members, targets_of()));
        assert(row_models(resolutions@) =~= site_rows(sites@, models, members, resolution_of()));
        assert(row_models(identities@) =~= site_rows(sites@, models, members, identity_of()));
        let linked = link_index.positions(key.as_str());
        let ghost linked_members = positions_of(link_keys(links), key@, links.len() as int);
        proof {
            let listed = Seq::new(linked@.len(), |i: int| linked@[i] as int);
            assert(listed == linked_members);
            assert(forall|k: int| 0 <= k < linked.len() ==> #[trigger] linked_members[k] == listed[k]);
        }
        let mut edge_identities: Vec<(Phase, Vec<String>)> = Vec::new();
        let mut i: usize = 0;
        while i < linked.len()
            invariant
                i <= linked.len(),
                linked.len() == linked_members.len(),
                link_positions.len() == links.len(),
                forall|k: int| 0 <= k < linked.len() ==> #[trigger] linked_members[k] == linked@[k],
                forall|k: int| 0 <= k < linked.len() ==> (#[trigger] linked@[k]) < links.len(),
                forall|i: int|
                    0 <= i < links.len() ==> (#[trigger] links[i]).0 == link_positions@[i] && link_positions@[i]
                        < edges.len(),
                edge_identities.len() == i,
                forall|k: int|
                    0 <= k < i ==> (#[trigger] edge_identities@[k]).0 == phase_of(
                        edges@[links[linked_members[k]].0].phase@,
                    ) && texts(edge_identities@[k].1@) == seq![edges@[links[linked_members[k]].0].id@],
            decreases linked.len() - i,
        {
            assert(linked_members[i as int] == linked@[i as int]);
            assert(links[linked@[i as int] as int].0 == link_positions@[linked@[i as int] as int]);
            let edge = &edges[link_positions[linked[i]]];
            edge_identities.push((canonical_phase(edge.phase.as_str()), single(&edge.id)));
            i = i + 1;
        }
        assert(row_models(edge_identities@) =~= edge_rows(edges@, links, linked_members));
        let first = correlated[found[0]];
        assert(members[0] == found@[0]);
        assert(models[members[0]] == first@);
        let specifier: String = match &sites[first.site].specifier {
            Some(specifier) => specifier.clone(),
            None => String::new(),
        };
        let draft = CorrelationDraft {
            id: key.clone(),
            effective_profile_id: entry_ids[first.profile].clone(),
            source: sites[first.site].source.clone(),
            kind: sites[first.site].kind.clone(),
            specifier,
            conditions: values_by_phase(&conditions),
            targets: texts_by_phase(&targets),
            resolutions: texts_by_phase(&resolutions),
            site_ids: texts_by_phase(&identities),
            edge_ids: texts_by_phase(&edge_identities),
        };
        assert(is_draft(draft, draft.id@, sites@, edges@, models, key_texts, entry_ids@));
        result.push(draft);
        d = d + 1;
    }
    assert(draft_ids(result@) =~= texts(distinct@));
    result
}

/// The keys of drafts.
pub open spec fn draft_ids(drafts: Seq<CorrelationDraft>) -> Seq<Seq<char>> {
    Seq::new(drafts.len(), |i: int| drafts[i].id@)
}

// ---------------------------------------------------------------------------------------
// Observation against prediction
// ---------------------------------------------------------------------------------------

/// The texts of a phase in a list by phase, from a place on.
pub open spec fn phase_texts_from(
    list: Seq<(String, Vec<String>)>,
    phase: Seq<char>,
    from: int,
) -> Option<Seq<Seq<char>>>
    decreases list.len() - from,
{
    if from < 0 || from >= list.len() {
        None
    } else if list[from].0@ == phase {
        Some(texts(list[from].1@))
    } else {
        phase_texts_from(list, phase, from + 1)
    }
}

/// The texts of a phase in a list by phase.
pub open spec fn phase_texts(list: Seq<(String, Vec<String>)>, phase: Seq<char>) -> Option<Seq<Seq<char>>> {
    phase_texts_from(list, phase, 0)
}

/// The united condition of a phase, from a place on.
pub open spec fn phase_union_from(
    list: Seq<(String, Vec<Json>)>,
    unions: Seq<Json>,
    phase: Seq<char>,
    from: int,
) -> Option<JsonModel>
    decreases list.len() - from,
{
    if from < 0 || from >= list.len() {
        None
    } else if list[from].0@ == phase {
        Some(unions[from]@)
    } else {
        phase_union_from(list, unions, phase, from + 1)
    }
}

/// The united condition of a phase.
pub open spec fn phase_union(
    list: Seq<(String, Vec<Json>)>,
    unions: Seq<Json>,
    phase: Seq<char>,
) -> Option<JsonModel> {
    phase_union_from(list, unions, phase, 0)
}

/// How the observations of a correlation differ from its prediction.
#[derive(Debug, Clone, Copy, PartialEq, Eq, Structural)]
pub struct Differences {
    pub condition_mismatch: bool,
    pub not_observed: bool,
    pub observed_addition: bool,
    pub resolution_mismatch: bool,
    pub semantic_refinement: bool,
    pub target_mismatch: bool,
}

/// The phase that predicts: the semantic phase, else the static one.
pub open spec fn predicted_phase(targets: Seq<(String, Vec<String>)>) -> Option<Seq<char>> {
    if phase_texts(targets, "semantic"@) is Some {
        Some("semantic"@)
    } else if phase_texts(targets, "static"@) is Some {
        Some("static"@)
    } else {
        None
    }
}

/// Whether the correlation was observed in a phase with other targets than predicted.
pub open spec fn targets_differ(draft: CorrelationDraft, predicted: Seq<char>, observed: Seq<char>) -> bool {
    phase_texts(draft.targets@, observed) is Some && phase_texts(draft.targets@, observed) != phase_texts(
        draft.targets@,
        predicted,
    )
}

/// Whether the correlation was observed in a phase under another condition than predicted.
pub open spec fn conditions_differ(
    draft: CorrelationDraft,
    unions: Seq<Json>,
    predicted: Seq<char>,
    observed: Seq<char>,
) -> bool {
    phase_texts(draft.targets@, observed) is Some && opt_value(
        phase_union(draft.conditions@, unions, observed),
    ) != opt_value(phase_union(draft.conditions@, unions, predicted))
}

/// Whether the correlation was observed in a phase with other resolutions than predicted.
pub open spec fn resolutions_differ(draft: CorrelationDraft, predicted: Seq<char>, observed: Seq<char>) -> bool {
    let expected = match phase_texts(draft.resolutions@, predicted) {
        Some(values) => values,
        None => Seq::empty(),
    };
    phase_texts(draft.targets@, observed) is Some && phase_texts(draft.resolutions@, observed) != Some(expected)
}

/// The differences of a correlation. `unions` holds the united condition of each phase.
pub open spec fn differences_of(draft: CorrelationDraft, unions: Seq<Json>) -> Differences {
    let targets = draft.targets@;
    let observed = phase_texts(targets, "build"@) is Some || phase_texts(targets, "runtime"@) is Some;
    let predicted = predicted_phase(targets);
    let compared = predicted is Some && observed;
    let p = predicted->0;
    Differences {
        condition_mismatch: compared && (conditions_differ(draft, unions, p, "build"@) || conditions_differ(
            draft,
            unions,
            p,
            "runtime"@,
        )),
        not_observed: !observed,
        observed_addition: predicted is None && observed,
        resolution_mismatch: compared && (resolutions_differ(draft, p, "build"@) || resolutions_differ(
            draft,
            p,
            "runtime"@,
        )),
        semantic_refinement: phase_texts(targets, "static"@) is Some && phase_texts(targets, "semantic"@) is Some
            && (phase_texts(targets, "static"@) != phase_texts(targets, "semantic"@) || opt_value(
            phase_union(draft.conditions@, unions, "static"@),
        ) != opt_value(phase_union(draft.conditions@, unions, "semantic"@))),
        target_mismatch: compared && (targets_differ(draft, p, "build"@) || targets_differ(draft, p, "runtime"@)),
    }
}

/// The status that differences amount to.
pub open spec fn status_of(differences: Differences) -> Seq<char> {
    if differences.observed_addition {
        "additional"@
    } else if differences.not_observed {
        "unobserved"@
    } else if differences.condition_mismatch || differences.resolution_mismatch || differences.target_mismatch {
        "conflict"@
    } else {
        "matched"@
    }
}

/// The names of differences, ascending.
pub open spec fn reasons_of(differences: Differences) -> Seq<Seq<char>> {
    (if differences.condition_mismatch {
        seq!["condition_mismatch"@]
    } else {
        Seq::empty()
    }) + (if differences.not_observed {
        seq!["not_observed"@]
    } else {
        Seq::empty()
    }) + (if differences.observed_addition {
        seq!["observed_addition"@]
    } else {
        Seq::empty()
    }) + (if differences.resolution_mismatch {
        seq!["resolution_mismatch"@]
    } else {
        Seq::empty()
    }) + (if differences.semantic_refinement {
        seq!["semantic_refinement"@]
    } else {
        Seq::empty()
    }) + (if differences.target_mismatch {
        seq!["target_mismatch"@]
    } else {
        Seq::empty()
    })
}

fn find_texts<'a>(list: &'a Vec<(String, Vec<String>)>, phase: &str) -> (result: Option<&'a Vec<String>>)
    ensures
        match result {
            Some(values) => phase_texts(list@, phase@) == Some(texts(values@)),
            None => phase_texts(list@, phase@) is None,
        },
{
    let mut i: usize = 0;
    while i < list.len()
        invariant
            i <= list.len(),
            phase_texts(list@, phase@) == phase_texts_from(list@, phase@, i as int),
        decreases list.len() - i,
    {
        if same(list[i].0.as_str(), phase) {
            return Some(&list[i].1);
        }
        i = i + 1;
    }
    None
}

fn find_union<'a>(list: &Vec<(String, Vec<Json>)>, unions: &'a Vec<Json>, phase: &str) -> (result: Option<&'a Json>)
    requires
        unions.len() == list.len(),
    ensures
        match result {
            Some(value) => phase_union(list@, unions@, phase@) == Some(value@),
            None => phase_union(list@, unions@, phase@) is None,
        },
{
    let mut i: usize = 0;
    while i < list.len()
        invariant
            i <= list.len(),
            unions.len() == list.len(),
            phase_union(list@, unions@, phase@) == phase_union_from(list@, unions@, phase@, i as int),
        decreases list.len() - i,
    {
        if same(list[i].0.as_str(), phase) {
            return Some(&unions[i]);
        }
        i = i + 1;
    }
    None
}

fn phase_texts_are_same(list: &Vec<(String, Vec<String>)>, a: &str, b: &str) -> (result: bool)
    ensures
        result == (phase_texts(list@, a@) == phase_texts(list@, b@)),
{
    match (find_texts(list, a), find_texts(list, b)) {
        (Some(a), Some(b)) => same_texts(a, b),
        (None, None) => true,
        _ => false,
    }
}

fn phase_unions_are_same(list: &Vec<(String, Vec<Json>)>, unions: &Vec<Json>, a: &str, b: &str) -> (result: bool)
    requires
        unions.len() == list.len(),
    ensures
        result == (opt_value(phase_union(list@, unions@, a@)) == opt_value(phase_union(list@, unions@, b@))),
{
    match (find_union(list, unions, a), find_union(list, unions, b)) {
        (Some(a), Some(b)) => a.same_value(b),
        (None, None) => true,
        _ => false,
    }
}

fn resolutions_are_expected(list: &Vec<(String, Vec<String>)>, predicted: &str, observed: &str) -> (result: bool)
    ensures
        result == (phase_texts(list@, observed@) == Some(
            match phase_texts(list@, predicted@) {
                Some(values) => values,
                None => Seq::empty(),
            },
        )),
{
    let empty: Vec<String> = Vec::new();
    assert(texts(empty@) =~= Seq::empty());
    let expected = match find_texts(list, predicted) {
        Some(values) => values,
        None => &empty,
    };
    match find_texts(list, observed) {
        Some(values) => same_texts(values, expected),
        None => false,
    }
}

/// The differences of a correlation. `unions` holds the united condition of each phase.
pub fn differences(draft: &CorrelationDraft, unions: &Vec<Json>) -> (result: Differences)
    requires
        unions.len() == draft.conditions.len(),
    ensures
        result == differences_of(*draft, unions@),
{
    let built = find_texts(&draft.targets, "build").is_some();
    let ran = find_texts(&draft.targets, "runtime").is_some();
    let semantic = find_texts(&draft.targets, "semantic").is_some();
    let fixed = find_texts(&draft.targets, "static").is_some();
    let observed = built || ran;
    let mut result = Differences {
        condition_mismatch: false,
        not_observed: !observed,
        observed_addition: !semantic && !fixed && observed,
        resolution_mismatch: false,
        semantic_refinement: false,
        target_mismatch: false,
    };
    if (semantic || fixed) && observed {
        let predicted: &str = if semantic {
            "semantic"
        } else {
            "static"
        };
        result.target_mismatch = (built && !phase_texts_are_same(&draft.targets, "build", predicted)) || (ran
            && !phase_texts_are_same(&draft.targets, "runtime", predicted));
        result.condition_mismatch = (built && !phase_unions_are_same(
            &draft.conditions,
            unions,
            "build",
            predicted,
        )) || (ran && !phase_unions_are_same(&draft.conditions, unions, "runtime", predicted));
        result.resolution_mismatch = (built && !resolutions_are_expected(&draft.resolutions, predicted, "build"))
            || (ran && !resolutions_are_expected(&draft.resolutions, predicted, "runtime"));
    }
    if fixed && semantic {
        result.semantic_refinement = !phase_texts_are_same(&draft.targets, "static", "semantic")
            || !phase_unions_are_same(&draft.conditions, unions, "static", "semantic");
    }
    result
}

impl Differences {
    /// The status that the differences amount to.
    pub fn status(self) -> (result: &'static str)
        ensures
            result@ == status_of(self),
    {
        if self.observed_addition {
            "additional"
        } else if self.not_observed {
            "unobserved"
        } else if self.condition_mismatch || self.resolution_mismatch || self.target_mismatch {
            "conflict"
        } else {
            "matched"
        }
    }

    /// Whether the differences amount to a conflict.
    pub fn is_conflict(self) -> (result: bool)
        ensures
            result == (status_of(self) == "conflict"@),
    {
        proof {
            reveal_strlit("additional");
            reveal_strlit("unobserved");
            reveal_strlit("conflict");
            reveal_strlit("matched");
            assert("additional"@.len() == 10 && "unobserved"@.len() == 10 && "matched"@.len() == 7);
            assert("conflict"@.len() == 8);
        }
        !self.observed_addition && !self.not_observed && (self.condition_mismatch || self.resolution_mismatch
            || self.target_mismatch)
    }

    /// The names of the differences, ascending.
    pub fn reasons(self) -> (result: Vec<String>)
        ensures
            texts(result@) == reasons_of(self),
    {
        let mut result: Vec<String> = Vec::new();
        if self.condition_mismatch {
            result.push(String::from_str("condition_mismatch"));
        }
        if self.not_observed {
            result.push(String::from_str("not_observed"));
        }
        if self.observed_addition {
            result.push(String::from_str("observed_addition"));
        }
        if self.resolution_mismatch {
            result.push(String::from_str("resolution_mismatch"));
        }
        if self.semantic_refinement {
            result.push(String::from_str("semantic_refinement"));
        }
        if self.target_mismatch {
            result.push(String::from_str("target_mismatch"));
        }
        assert(texts(result@) =~= reasons_of(self));
        result
    }
}

/// Whether a record is the finished form of a draft. `unions` holds the united condition
/// of each phase, `union` that of the phases together.
pub open spec fn is_finished(
    record: ProfileCorrelationRecord,
    draft: CorrelationDraft,
    unions: Seq<Json>,
    union: Json,
    conflict_diagnostic_id: Seq<char>,
) -> bool {
    let differences = differences_of(draft, unions);
    &&& record.id == draft.id
    &&& record.effective_profile_id == draft.effective_profile_id
    &&& record.source == draft.source
    &&& record.kind == draft.kind
    &&& record.specifier == draft.specifier
    &&& record.status@ == status_of(differences)
    &&& record.condition_union == union
    &&& record.conditions_by_phase@.len() == unions.len()
    &&& forall|i: int|
        0 <= i < unions.len() ==> (#[trigger] record.conditions_by_phase@[i]).0 == draft.conditions@[i].0
            && record.conditions_by_phase@[i].1 == unions[i]
    &&& record.targets_by_phase == draft.targets
    &&& record.resolutions_by_phase == draft.resolutions
    &&& record.site_ids_by_phase == draft.site_ids
    &&& record.edge_ids_by_phase == draft.edge_ids
    &&& texts(record.difference_reasons@) == reasons_of(differences)
    &&& crate::text::opt_text(record.diagnostic_id) == if status_of(differences) == "conflict"@ {
        Some(conflict_diagnostic_id)
    } else {
        None
    }
}

/// Finishes a correlation. `unions` holds the united condition of each phase, `union`
/// that of the phases together; the diagnostic is reported where the correlation is a
/// conflict.
pub fn finish_correlation(
    draft: CorrelationDraft,
    unions: Vec<Json>,
    union: Json,
    conflict_diagnostic_id: String,
) -> (result: ProfileCorrelationRecord)
    requires
        unions.len() == draft.conditions.len(),
    ensures
        is_finished(result, draft, unions@, union, conflict_diagnostic_id@),
{
    let found = differences(&draft, &unions);
    let conflict = found.is_conflict();
    let ghost source = unions@;
    let mut conditions_by_phase: Vec<(String, Json)> = Vec::new();
    let mut i: usize = 0;
    for value in it: unions
        invariant
            it.seq() == source,
            source.len() == draft.conditions.len(),
            i == it.index(),
            conditions_by_phase.len() == i,
            forall|k: int|
                0 <= k < i ==> (#[trigger] conditions_by_phase@[k]).0 == draft.conditions@[k].0
                    && conditions_by_phase@[k].1 == source[k],
    {
        conditions_by_phase.push((draft.conditions[i].0.clone(), value));
        i = i + 1;
    }
    ProfileCorrelationRecord {
        id: draft.id,
        effective_profile_id: draft.effective_profile_id,
        source: draft.source,
        kind: draft.kind,
        specifier: draft.specifier,
        status: String::from_str(found.status()),
        condition_union: union,
        conditions_by_phase,
        targets_by_phase: draft.targets,
        resolutions_by_phase: draft.resolutions,
        site_ids_by_phase: draft.site_ids,
        edge_ids_by_phase: draft.edge_ids,
        difference_reasons: found.reasons(),
        diagnostic_id: if conflict {
            Some(conflict_diagnostic_id)
        } else {
            None
        },
    }
}

/// A correlation has one of four statuses. It carries a diagnostic exactly where it is a
/// conflict, and a matched one has no reason but a semantic refinement.
pub proof fn statuses_are_exclusive(differences: Differences)
    ensures
        status_of(differences) == "matched"@ || status_of(differences) == "additional"@ || status_of(differences)
            == "conflict"@ || status_of(differences) == "unobserved"@,
        status_of(differences) == "matched"@ ==> reasons_of(differences) == if differences.semantic_refinement {
            seq!["semantic_refinement"@]
        } else {
            Seq::empty()
        },
{
    reveal_strlit("additional");
    reveal_strlit("unobserved");
    reveal_strlit("conflict");
    reveal_strlit("matched");
    assert("additional"@.len() == 10 && "unobserved"@.len() == 10 && "matched"@.len() == 7 && "conflict"@.len() == 8);
    if status_of(differences) == "matched"@ {
        assert(reasons_of(differences) =~= if differences.semantic_refinement {
            seq!["semantic_refinement"@]
        } else {
            Seq::empty()
        });
    }
}

} // verus!
