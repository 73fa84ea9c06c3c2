use vstd::prelude::*;
use vstd::string::StringExecFns;

use crate::model::{Board, Card, Column};
use crate::provider::ProviderError;

use crate::text::{
    contains_str, dedup, has_infix, joined, lemma_dedup, lemma_dedup_push, lower_of, position,
    strip_trailing, to_lower, trim, trim_end_char, trimmed, views,
};

verus! {

/// An object that carries only an id.
pub struct IdOnly {
    pub id: String,
}

/// A column of the remote board's configuration and the statuses it shows.
pub struct BoardColumn {
    pub name: String,
    pub statuses: Vec<IdOnly>,
}

/// The columns of the remote board's configuration, in board order.
pub struct ColumnConfig {
    pub columns: Vec<BoardColumn>,
}

/// The saved filter that selects the remote board's issues.
pub struct BoardFilter {
    pub id: String,
}

/// The remote board's configuration.
pub struct BoardConfigResponse {
    pub column_config: ColumnConfig,
    pub filter: BoardFilter,
}

/// A workflow status.
pub struct Status {
    pub id: String,
    pub name: String,
}

/// A transition an issue can take, and the status it leads to.
pub struct Transition {
    pub id: String,
    pub to: Status,
}

/// The column names of the configuration, in board order and without
/// repeats, and for each of them (same index) the status ids it shows.
pub struct BoardConfigMap {
    pub order: Vec<String>,
    pub statuses: Vec<Vec<String>>,
}

/// The ids of a sequence of id-only objects.
pub open spec fn id_views(v: Seq<IdOnly>) -> Seq<Seq<char>> {
    v.map_values(|x: IdOnly| x.id@)
}

/// The names of the configured columns, in board order.
pub open spec fn column_names(cols: Seq<BoardColumn>) -> Seq<Seq<char>> {
    cols.map_values(|c: BoardColumn| c.name@)
}

/// The status ids of every configured column named `name`, in board order.
pub open spec fn status_ids_of(cols: Seq<BoardColumn>, name: Seq<char>) -> Seq<Seq<char>>
    decreases cols.len(),
{
    if cols.len() == 0 {
        Seq::empty()
    } else {
        let rest = status_ids_of(cols.drop_last(), name);
        if cols.last().name@ == name {
            rest + id_views(cols.last().statuses@)
        } else {
            rest
        }
    }
}

impl BoardConfigMap {
    /// Each column name appears once, with its list of status ids.
    pub open spec fn wf(&self) -> bool {
        &&& self.statuses@.len() == self.order@.len()
        &&& views(self.order@).no_duplicates()
    }

    /// The map describes the configured columns `cols`: their names once
    /// each in board order, and for each name the status ids of its columns
    /// once each in board order.
    pub open spec fn describes(&self, cols: Seq<BoardColumn>) -> bool {
        &&& views(self.order@) == dedup(column_names(cols))
        &&& self.statuses@.len() == self.order@.len()
        &&& forall|k: int|
            0 <= k < self.order@.len() ==> views((#[trigger] self.statuses@[k])@) == dedup(
                status_ids_of(cols, self.order@[k]@),
            )
    }

    /// The status ids shown by the column named `name`, if it is configured.
    pub fn column_to_status(&self, name: &str) -> (r: Option<&Vec<String>>)
        requires
            self.statuses@.len() == self.order@.len(),
        ensures
            match r {
                Some(v) => exists|k: int|
                    0 <= k < self.order@.len() && self.order@[k]@ == name@ && *v
                        == self.statuses@[k],
                None => forall|k: int| 0 <= k < self.order@.len() ==> self.order@[k]@ != name@,
            },
    {
        let key = String::from_str(name);
        match position(&self.order, &key) {
            Some(k) => Some(&self.statuses[k]),
            None => None,
        }
    }
}

/// Where no configured column is named `name`, no status id is listed for it.
proof fn lemma_unnamed_has_no_statuses(cols: Seq<BoardColumn>, name: Seq<char>)
    requires
        !column_names(cols).contains(name),
    ensures
        status_ids_of(cols, name) == Seq::<Seq<char>>::empty(),
    decreases cols.len(),
{
    if cols.len() > 0 {
        assert(column_names(cols.drop_last()) =~= column_names(cols).drop_last());
        if column_names(cols.drop_last()).contains(name) {
            let i = choose|i: int|
                0 <= i < column_names(cols.drop_last()).len() && column_names(
                    cols.drop_last(),
                )[i] == name;
            assert(column_names(cols)[i] == name);
        }
        assert(column_names(cols)[cols.len() - 1] == cols.last().name@);
        lemma_unnamed_has_no_statuses(cols.drop_last(), name);
    }
}

/// The column names of the configuration in board order, each once, and
/// for each name the status ids of its columns, each once, in board order.
pub fn board_config_map(cfg: &BoardConfigResponse) -> (r: BoardConfigMap)
    ensures
        r.describes(cfg.column_config.columns@),
        r.wf(),
{
    let cols = &cfg.column_config.columns;
    let mut order: Vec<String> = Vec::new();
    let mut statuses: Vec<Vec<String>> = Vec::new();
    let mut i: usize = 0;
    assert(views(order@) =~= dedup(column_names(cols@.take(0))));
    while i < cols.len()
        invariant
            i <= cols@.len(),
            (BoardConfigMap { order, statuses }).describes(cols@.take(i as int)),
        decreases cols.len() - i,
    {
        let ghost done = cols@.take(i as int);
        let ghost next = cols@.take(i as int + 1);
        assert(next.drop_last() =~= done);
        let col = &cols[i];
        let ghost name = col.name@;
        proof {
            lemma_dedup(column_names(done));
            lemma_dedup_push(column_names(done), name);
            assert(column_names(next) =~= column_names(done).push(name));
        }
        let ghost before_map = statuses@;
        let j = match position(&order, &col.name) {
            Some(j) => {
                assert(views(order@)[j as int] == name);
                j
            },
            None => {
                proof {
                    if views(order@).contains(name) {
                        let k = choose|k: int|
                            0 <= k < views(order@).len() && views(order@)[k] == name;
                        assert(order@[k]@ == name);
                    }
                    lemma_unnamed_has_no_statuses(done, name);
                }
                order.push(col.name.clone());
                statuses.push(Vec::new());
                assert(views(order@) =~= dedup(column_names(next)));
                assert(views(statuses@[order@.len() - 1]@) =~= dedup(status_ids_of(done, name)));
                order.len() - 1
            },
        };
        proof {
            lemma_dedup(column_names(next));
        }
        assert(views(order@) == dedup(column_names(next)));
        assert(order@[j as int]@ == name);
        let ghost base = status_ids_of(done, name);
        assert forall|k: int| 0 <= k < order@.len() && k != j implies views(
            (#[trigger] statuses@[k])@,
        ) == dedup(status_ids_of(done, order@[k]@)) by {
            assert(statuses@[k] == before_map[k]);
        }
        let ghost before_inner = statuses@;
        let mut t: usize = 0;
        assert(base + id_views(col.statuses@.take(0)) =~= base);
        while t < col.statuses.len()
            invariant
                t <= col.statuses@.len(),
                j < order@.len(),
                statuses@.len() == order@.len(),
                views(statuses@[j as int]@) == dedup(base + id_views(col.statuses@.take(t as int))),
                statuses@.len() == before_inner.len(),
                forall|k: int|
                    0 <= k < statuses@.len() && k != j ==> statuses@[k] == before_inner[k],
            decreases col.statuses.len() - t,
        {
            let ghost pre = base + id_views(col.statuses@.take(t as int));
            let id = &col.statuses[t].id;
            assert(base + id_views(col.statuses@.take(t as int + 1)) =~= pre.push(id@));
            proof {
                lemma_dedup_push(pre, id@);
            }
            match position(&statuses[j], id) {
                Some(p) => {
                    assert(views(statuses@[j as int]@)[p as int] == id@);
                },
                None => {
                    proof {
                        if dedup(pre).contains(id@) {
                            let k = choose|k: int|
                                0 <= k < dedup(pre).len() && dedup(pre)[k] == id@;
                            assert(statuses@[j as int]@[k]@ == id@);
                        }
                    }
                    statuses[j].push(id.clone());
                    assert(views(statuses@[j as int]@) =~= dedup(pre).push(id@));
                },
            }
            t += 1;
        }
        assert(col.statuses@.take(col.statuses@.len() as int) =~= col.statuses@);
        assert(next.last() == *col);
        assert(status_ids_of(next, name) == base + id_views(col.statuses@));
        assert forall|k: int| 0 <= k < order@.len() implies views(
            (#[trigger] statuses@[k])@,
        ) == dedup(status_ids_of(next, order@[k]@)) by {
            if k != j {
                assert(views(order@)[k] != views(order@)[j as int]);
                assert(status_ids_of(next, order@[k]@) == status_ids_of(done, order@[k]@));
                assert(statuses@[k] == before_inner[k]);
            }
        }
        i += 1;
    }
    proof {
        assert(cols@.take(cols@.len() as int) =~= cols@);
        lemma_dedup(column_names(cols@));
    }
    BoardConfigMap { order, statuses }
}

/// The status names preferred for a column whose lowercased name is `col`.
pub open spec fn prefs_for(col: Seq<char>) -> Seq<Seq<char>> {
    if has_infix(col, "todo"@) || has_infix(col, "to do"@) {
        seq!["open"@, "backlog"@]
    } else if has_infix(col, "progress"@) {
        seq!["in progress"@]
    } else if has_infix(col, "review"@) {
        seq!["in review"@, "review"@]
    } else if has_infix(col, "test"@) || has_infix(col, "qa"@) {
        seq!["in testing"@, "testing"@, "qa"@]
    } else if has_infix(col, "done"@) {
        seq!["done"@, "resolved"@, "closed"@, "verified"@]
    } else {
        Seq::empty()
    }
}

/// The transition leads to one of the statuses `ids`.
pub open spec fn leads_into(t: Transition, ids: Seq<String>) -> bool {
    exists|k: int| 0 <= k < ids.len() && (#[trigger] ids[k])@ == t.to.id@
}

/// The (lowercased) status name contains one of `prefs`.
pub open spec fn preferred(name: Seq<char>, prefs: Seq<Seq<char>>) -> bool {
    exists|k: int| 0 <= k < prefs.len() && has_infix(name, #[trigger] prefs[k])
}

/// Transition `i`, whose target status has the lowercased name `names[i]`,
/// leads into the column and to a preferred status.
pub open spec fn best(
    ts: Seq<Transition>,
    names: Seq<Seq<char>>,
    ids: Seq<String>,
    prefs: Seq<Seq<char>>,
    i: int,
) -> bool {
    leads_into(ts[i], ids) && preferred(names[i], prefs)
}

/// `ts[i]` is the first transition that leads into the column and to a
/// preferred status.
pub open spec fn is_first_best(
    ts: Seq<Transition>,
    names: Seq<Seq<char>>,
    ids: Seq<String>,
    prefs: Seq<Seq<char>>,
    i: int,
) -> bool {
    &&& 0 <= i < ts.len()
    &&& best(ts, names, ids, prefs, i)
    &&& forall|j: int| 0 <= j < i ==> !#[trigger] best(ts, names, ids, prefs, j)
}

/// No transition leads into the column and to a preferred status, and
/// `ts[i]` is the first that leads into the column.
pub open spec fn is_fallback(
    ts: Seq<Transition>,
    names: Seq<Seq<char>>,
    ids: Seq<String>,
    prefs: Seq<Seq<char>>,
    i: int,
) -> bool {
    &&& 0 <= i < ts.len()
    &&& leads_into(ts[i], ids)
    &&& forall|j: int| 0 <= j < i ==> !leads_into(#[trigger] ts[j], ids)
    &&& forall|j: int| 0 <= j < ts.len() ==> !#[trigger] best(ts, names, ids, prefs, j)
}

/// The lowercased names of the transitions' target statuses.
pub open spec fn lowered_names(ts: Seq<Transition>) -> Seq<Seq<char>> {
    ts.map_values(|t: Transition| lower_of(t.to.name@))
}

/// The preferred names for the column whose lowercased name is `col`.
fn prefs_for_lowered(col: &str) -> (r: Vec<&'static str>)
    ensures
        r@.map_values(|p: &str| p@) == prefs_for(col@),
{
    let r: Vec<&'static str> = if contains_str(col, "todo") || contains_str(col, "to do") {
        vec!["open", "backlog"]
    } else if contains_str(col, "progress") {
        vec!["in progress"]
    } else if contains_str(col, "review") {
        vec!["in review", "review"]
    } else if contains_str(col, "test") || contains_str(col, "qa") {
        vec!["in testing", "testing", "qa"]
    } else if contains_str(col, "done") {
        vec!["done", "resolved", "closed", "verified"]
    } else {
        Vec::new()
    };
    assert(r@.map_values(|p: &str| p@) =~= prefs_for(col@));
    r
}

/// Whether some id of `ids` equals `id`.
fn lists_id(ids: &[String], id: &String) -> (r: bool)
    ensures
        r == exists|k: int| 0 <= k < ids@.len() && (#[trigger] ids@[k])@ == id@,
{
    let mut k: usize = 0;
    while k < ids.len()
        invariant
            k <= ids@.len(),
            forall|m: int| 0 <= m < k ==> (#[trigger] ids@[m])@ != id@,
        decreases ids.len() - k,
    {
        if ids[k] == *id {
            return true;
        }
        k += 1;
    }
    false
}

/// Whether `name` contains one of `prefs`.
fn contains_any(name: &str, prefs: &Vec<&'static str>) -> (r: bool)
    ensures
        r == exists|k: int| 0 <= k < prefs@.len() && has_infix(name@, #[trigger] prefs@[k]@),
{
    let mut k: usize = 0;
    while k < prefs.len()
        invariant
            k <= prefs@.len(),
            forall|m: int| 0 <= m < k ==> !has_infix(name@, #[trigger] prefs@[m]@),
        decreases prefs.len() - k,
    {
        if contains_str(name, prefs[k]) {
            return true;
        }
        k += 1;
    }
    false
}

/// The index of the transition to take into the column whose lowercased
/// name is `lowered_col`, which shows the statuses `status_ids`, given the
/// lowercased names of the transitions' target statuses: the first one
/// that leads into the column and whose name holds a word preferred for
/// that column, else the first one that leads into the column, else none.
pub fn pick_transition_by_names(
    transitions: &[Transition],
    lowered_names: &[String],
    lowered_col: &str,
    status_ids: &[String],
) -> (r: Option<usize>)
    requires
        lowered_names@.len() == transitions@.len(),
    ensures
        ({
            let ts = transitions@;
            let names = views(lowered_names@);
            let ids = status_ids@;
            let prefs = prefs_for(lowered_col@);
            &&& r is None <==> forall|i: int|
                0 <= i < ts.len() ==> !leads_into(#[trigger] ts[i], ids)
            &&& r matches Some(i) ==> is_first_best(ts, names, ids, prefs, i as int)
                || is_fallback(ts, names, ids, prefs, i as int)
        }),
{
    let prefs = prefs_for_lowered(lowered_col);
    let ghost sprefs = prefs_for(lowered_col@);
    let ghost names = views(lowered_names@);
    let ghost ts = transitions@;
    let mut first_match: Option<usize> = None;
    let mut i: usize = 0;
    while i < transitions.len()
        invariant
            i <= ts.len(),
            ts == transitions@,
            lowered_names@.len() == ts.len(),
            names == views(lowered_names@),
            sprefs == prefs_for(lowered_col@),
            prefs@.map_values(|p: &str| p@) == sprefs,
            forall|j: int| 0 <= j < i ==> !#[trigger] best(ts, names, status_ids@, sprefs, j),
            match first_match {
                None => forall|j: int| 0 <= j < i ==> !leads_into(#[trigger] ts[j], status_ids@),
                Some(f) => f < i && leads_into(ts[f as int], status_ids@) && forall|j: int|
                    0 <= j < f ==> !leads_into(#[trigger] ts[j], status_ids@),
            },
        decreases transitions.len() - i,
    {
        if lists_id(status_ids, &transitions[i].to.id) {
            assert(leads_into(ts[i as int], status_ids@));
            let hit = contains_any(lowered_names[i].as_str(), &prefs);
            assert(hit == preferred(names[i as int], sprefs)) by {
                assert(names[i as int] == lowered_names@[i as int]@);
                if hit {
                    let k = choose|k: int|
                        0 <= k < prefs@.len() && has_infix(
                            lowered_names@[i as int]@,
                            #[trigger] prefs@[k]@,
                        );
                    assert(sprefs[k] == prefs@[k]@);
                }
                if preferred(names[i as int], sprefs) {
                    let k = choose|k: int|
                        0 <= k < sprefs.len() && has_infix(names[i as int], #[trigger] sprefs[k]);
                    assert(sprefs[k] == prefs@[k]@);
                }
            }
            if prefs.len() > 0 && hit {
                assert(best(ts, names, status_ids@, sprefs, i as int));
                return Some(i);
            }
            if first_match.is_none() {
                first_match = Some(i);
            }
        }
        i += 1;
    }
    first_match
}

/// The transition to take into the column named `column_name`, which shows
/// the statuses `status_ids`: `pick_transition_by_names` on the lowercased
/// column name and the lowercased names of the target statuses.
pub fn pick_transition_for_column<'a>(
    transitions: &'a [Transition],
    column_name: &str,
    status_ids: &[String],
) -> (r: Option<&'a Transition>)
    ensures
        ({
            let ts = transitions@;
            let names = lowered_names(ts);
            let ids = status_ids@;
            let prefs = prefs_for(lower_of(column_name@));
            &&& r is None <==> forall|i: int|
                0 <= i < ts.len() ==> !leads_into(#[trigger] ts[i], ids)
            &&& r matches Some(t) ==> exists|i: int|
                #![trigger ts[i]]
                *t == ts[i] && (is_first_best(ts, names, ids, prefs, i) || is_fallback(
                    ts,
                    names,
                    ids,
                    prefs,
                    i,
                ))
        }),
{
    let mut names: Vec<String> = Vec::new();
    let mut i: usize = 0;
    while i < transitions.len()
        invariant
            i <= transitions@.len(),
            views(names@) == lowered_names(transitions@).take(i as int),
        decreases transitions.len() - i,
    {
        let ghost before = names@;
        names.push(to_lower(transitions[i].to.name.as_str()));
        assert(views(names@) =~= views(before).push(lower_of(transitions@[i as int].to.name@)));
        assert(lowered_names(transitions@).take(i as int + 1) =~= lowered_names(transitions@).take(
            i as int,
        ).push(lower_of(transitions@[i as int].to.name@)));
        i += 1;
    }
    assert(lowered_names(transitions@).take(transitions@.len() as int) =~= lowered_names(
        transitions@,
    ));
    let col = to_lower(column_name);
    match pick_transition_by_names(transitions, names.as_slice(), col.as_str(), status_ids) {
        Some(k) => Some(&transitions[k]),
        None => None,
    }
}

/// The configuration shows column `name`, at index `k`, and some transition
/// of `ts` leads into it.
pub open spec fn enters_configured(
    ts: Seq<Transition>,
    m: BoardConfigMap,
    name: Seq<char>,
    k: int,
) -> bool {
    &&& 0 <= k < m.order@.len()
    &&& m.order@[k]@ == name
    &&& exists|i: int| 0 <= i < ts.len() && leads_into(#[trigger] ts[i], m.statuses@[k]@)
}

/// Some transition of `ts` leads to a status named `name`.
pub open spec fn enters_named(ts: Seq<Transition>, name: Seq<char>) -> bool {
    exists|i: int| 0 <= i < ts.len() && (#[trigger] ts[i]).to.name@ == name
}

/// The id of the transition that moves an issue into column `to_col_id`:
/// where the configuration shows that column, the one that
/// `pick_transition_for_column` picks among its statuses; else the first
/// transition to a status named like the column. Where there is neither,
/// the column is not found.
pub fn transition_for_move(
    transitions: &[Transition],
    to_col_id: &str,
    map: Option<&BoardConfigMap>,
) -> (r: Result<String, ProviderError>)
    requires
        map matches Some(m) ==> m.wf(),
    ensures
        ({
            let ts = transitions@;
            let via_map = map matches Some(m) && exists|k: int| enters_configured(ts, *m, to_col_id@, k);
            &&& r is Ok <==> via_map || enters_named(ts, to_col_id@)
            &&& r matches Err(e) ==> (e matches ProviderError::NotFound { id } && id@ == to_col_id@)
            &&& r matches Ok(id) ==> exists|i: int|
                0 <= i < ts.len() && id == ts[i].id && {
                    ||| map matches Some(m) && exists|k: int|
                        enters_configured(ts, *m, to_col_id@, k) && leads_into(ts[i], m.statuses@[k]@)
                    ||| !via_map && ts[i].to.name@ == to_col_id@ && forall|j: int|
                        0 <= j < i ==> (#[trigger] ts[j]).to.name@ != to_col_id@
                }
        }),
{
    let ghost ts = transitions@;
    match map {
        Some(m) => {
            match m.column_to_status(to_col_id) {
                Some(ids) => {
                    let ghost k = choose|k: int|
                        0 <= k < m.order@.len() && m.order@[k]@ == to_col_id@ && *ids
                            == m.statuses@[k];
                    match pick_transition_for_column(transitions, to_col_id, ids.as_slice()) {
                        Some(t) => {
                            let ghost i = choose|i: int| 0 <= i < ts.len() && *t == ts[i];
                            assert(leads_into(ts[i], m.statuses@[k]@));
                            assert(enters_configured(ts, *m, to_col_id@, k));
                            return Ok(t.id.clone());
                        },
                        None => {
                            assert forall|k2: int| !enters_configured(ts, *m, to_col_id@, k2) by {
                                if enters_configured(ts, *m, to_col_id@, k2) {
                                    assert(views(m.order@)[k2] == views(m.order@)[k]);
                                    let i = choose|i: int|
                                        0 <= i < ts.len() && leads_into(ts[i], m.statuses@[k2]@);
                                    assert(!leads_into(ts[i], ids@));
                                }
                            }
                        },
                    }
                },
                None => {
                    assert forall|k2: int| !enters_configured(ts, *m, to_col_id@, k2) by {}
                },
            }
        },
        None => {},
    }
    let ghost via_map = map matches Some(m) && exists|k: int| enters_configured(ts, *m, to_col_id@, k);
    assert(!via_map);
    let key = String::from_str(to_col_id);
    let mut i: usize = 0;
    while i < transitions.len()
        invariant
            i <= ts.len(),
            ts == transitions@,
            key@ == to_col_id@,
            !via_map,
            via_map == (map matches Some(m) && exists|k: int| enters_configured(ts, *m, to_col_id@, k)),
            forall|j: int| 0 <= j < i ==> (#[trigger] ts[j]).to.name@ != to_col_id@,
        decreases transitions.len() - i,
    {
        if transitions[i].to.name == key {
            return Ok(transitions[i].id.clone());
        }
        i += 1;
    }
    Err(ProviderError::NotFound { id: key })
}

/// An issue of the remote board, with what the board shows of it.
pub struct JiraIssue {
    pub key: String,
    pub summary: String,
    pub description: String,
    pub status_id: String,
    pub status_name: String,
}

/// The index, from `k` on, of the first configured column that shows status
/// `sid`.
pub open spec fn column_index_from(m: BoardConfigMap, sid: Seq<char>, k: int) -> Option<int>
    decreases m.statuses@.len() - k,
{
    if k < 0 || k >= m.statuses@.len() {
        None
    } else if views(m.statuses@[k]@).contains(sid) {
        Some(k)
    } else {
        column_index_from(m, sid, k + 1)
    }
}

/// The column an issue belongs in: the first configured column that shows
/// its status, else a column named after the status.
pub open spec fn issue_column(m: BoardConfigMap, iss: JiraIssue) -> Seq<char> {
    match column_index_from(m, iss.status_id@, 0) {
        Some(k) => m.order@[k]@,
        None => iss.status_name@,
    }
}

/// The columns of the issues, in issue order.
pub open spec fn issue_columns(m: BoardConfigMap, issues: Seq<JiraIssue>) -> Seq<Seq<char>> {
    issues.map_values(|iss: JiraIssue| issue_column(m, iss))
}

/// The card shown for an issue.
pub open spec fn card_of(iss: JiraIssue) -> Card {
    Card { id: iss.key, title: iss.summary, description: iss.description }
}

/// The cards of the issues that belong in column `name`, in issue order.
pub open spec fn cards_in(m: BoardConfigMap, issues: Seq<JiraIssue>, name: Seq<char>) -> Seq<Card>
    decreases issues.len(),
{
    if issues.len() == 0 {
        Seq::empty()
    } else {
        let rest = cards_in(m, issues.drop_last(), name);
        if issue_column(m, issues.last()) == name {
            rest.push(card_of(issues.last()))
        } else {
            rest
        }
    }
}

/// The board's column names: the configured ones in board order, then those
/// that only issues name, in order of first appearance.
pub open spec fn board_column_names(m: BoardConfigMap, issues: Seq<JiraIssue>) -> Seq<Seq<char>> {
    dedup(views(m.order@) + issue_columns(m, issues))
}

/// The column that `iss` belongs in.
fn column_for(m: &BoardConfigMap, iss: &JiraIssue) -> (r: String)
    requires
        m.wf(),
    ensures
        r@ == issue_column(*m, *iss),
{
    let ghost sid = iss.status_id@;
    let mut k: usize = 0;
    while k < m.statuses.len()
        invariant
            m.wf(),
            sid == iss.status_id@,
            k <= m.statuses@.len(),
            column_index_from(*m, sid, 0) == column_index_from(*m, sid, k as int),
        decreases m.statuses.len() - k,
    {
        match position(&m.statuses[k], &iss.status_id) {
            Some(p) => {
                assert(views(m.statuses@[k as int]@)[p as int] == sid);
                return m.order[k].clone();
            },
            None => {
                proof {
                    if views(m.statuses@[k as int]@).contains(sid) {
                        let p = choose|p: int|
                            0 <= p < views(m.statuses@[k as int]@).len() && views(
                                m.statuses@[k as int]@,
                            )[p] == sid;
                        assert(m.statuses@[k as int]@[p]@ == sid);
                    }
                }
            },
        }
        k += 1;
    }
    iss.status_name.clone()
}

/// The board the remote issues make: one column for each name of
/// `board_column_names`, id and title that name, holding the cards of the
/// issues that belong in it in issue order.
pub fn assemble_board(m: &BoardConfigMap, issues: &Vec<JiraIssue>) -> (r: Board)
    requires
        m.wf(),
    ensures
        ({
            let names = board_column_names(*m, issues@);
            &&& r.columns@.len() == names.len()
            &&& forall|c: int|
                0 <= c < names.len() ==> {
                    &&& (#[trigger] r.columns@[c]).id@ == names[c]
                    &&& r.columns@[c].title@ == names[c]
                    &&& r.columns@[c].cards@ == cards_in(*m, issues@, names[c])
                }
        }),
{
    let ghost all = views(m.order@) + issue_columns(*m, issues@);
    let mut names: Vec<String> = Vec::new();
    let mut k: usize = 0;
    assert(all.take(0) =~= Seq::<Seq<char>>::empty());
    while k < m.order.len()
        invariant
            k <= m.order@.len(),
            all == views(m.order@) + issue_columns(*m, issues@),
            views(names@) == dedup(all.take(k as int)),
        decreases m.order.len() - k,
    {
        proof {
            assert(all.take(k as int + 1) =~= all.take(k as int).push(all[k as int]));
            lemma_dedup_push(all.take(k as int), all[k as int]);
        }
        match position(&names, &m.order[k]) {
            Some(p) => {
                assert(views(names@)[p as int] == all[k as int]);
            },
            None => {
                proof {
                    if views(names@).contains(all[k as int]) {
                        let p = choose|p: int|
                            0 <= p < views(names@).len() && views(names@)[p] == all[k as int];
                        assert(names@[p]@ == all[k as int]);
                    }
                }
                names.push(m.order[k].clone());
                assert(views(names@) =~= dedup(all.take(k as int)).push(all[k as int]));
            },
        }
        k += 1;
    }
    let mut cols_of: Vec<String> = Vec::new();
    let mut t: usize = 0;
    let base: usize = m.order.len();
    while t < issues.len()
        invariant
            t <= issues@.len(),
            base == m.order@.len(),
            m.wf(),
            all == views(m.order@) + issue_columns(*m, issues@),
            views(names@) == dedup(all.take(base + t)),
            views(cols_of@) == issue_columns(*m, issues@).take(t as int),
            cols_of@.len() == t,
        decreases issues.len() - t,
    {
        let c = column_for(m, &issues[t]);
        let ghost i = base + t;
        proof {
            assert(all[i] == c@);
            assert(all.take(i + 1) =~= all.take(i).push(all[i]));
            lemma_dedup_push(all.take(i), all[i]);
        }
        match position(&names, &c) {
            Some(p) => {
                assert(views(names@)[p as int] == c@);
            },
            None => {
                proof {
                    if views(names@).contains(c@) {
                        let p = choose|p: int|
                            0 <= p < views(names@).len() && views(names@)[p] == c@;
                        assert(names@[p]@ == c@);
                    }
                }
                names.push(c.clone());
                assert(views(names@) =~= dedup(all.take(i)).push(all[i]));
            },
        }
        let ghost prev = cols_of@;
        cols_of.push(c);
        assert(issue_columns(*m, issues@)[t as int] == cols_of@[t as int]@);
        assert(views(cols_of@) =~= issue_columns(*m, issues@).take(t as int + 1)) by {
            assert(forall|j: int| 0 <= j < t ==> cols_of@[j] == prev[j]);
            assert(forall|j: int| 0 <= j < t ==> views(prev)[j] == prev[j]@);
        }
        t += 1;
    }
    assert(all.take(base + issues@.len()) =~= all);
    assert(views(cols_of@) =~= issue_columns(*m, issues@));
    assert(cols_of@.len() == issues@.len());
    let mut columns: Vec<Column> = Vec::new();
    let mut c: usize = 0;
    while c < names.len()
        invariant
            c <= names@.len(),
            views(names@) == board_column_names(*m, issues@),
            views(cols_of@) == issue_columns(*m, issues@),
            cols_of@.len() == issues@.len(),
            columns@.len() == c,
            forall|j: int|
                0 <= j < c ==> {
                    &&& (#[trigger] columns@[j]).id@ == names@[j]@
                    &&& columns@[j].title@ == names@[j]@
                    &&& columns@[j].cards@ == cards_in(*m, issues@, names@[j]@)
                },
        decreases names.len() - c,
    {
        let name = &names[c];
        let mut cards: Vec<Card> = Vec::new();
        let mut t: usize = 0;
        while t < issues.len()
            invariant
                t <= issues@.len(),
                views(cols_of@) == issue_columns(*m, issues@),
                cols_of@.len() == issues@.len(),
                cards@ == cards_in(*m, issues@.take(t as int), name@),
            decreases issues.len() - t,
        {
            assert(issues@.take(t as int + 1).drop_last() =~= issues@.take(t as int));
            assert(views(cols_of@)[t as int] == issue_columns(*m, issues@)[t as int]);
            if cols_of[t] == *name {
                let iss = &issues[t];
                cards.push(
                    Card {
                        id: iss.key.clone(),
                        title: iss.summary.clone(),
                        description: iss.description.clone(),
                    },
                );
            }
            t += 1;
        }
        assert(issues@.take(issues@.len() as int) =~= issues@);
        columns.push(Column { id: name.clone(), title: name.clone(), cards });
        c += 1;
    }
    Board { columns }
}

/// Where and as whom the remote board is reached, and, where some setting
/// is missing, the message that says which.
pub struct JiraSettings {
    pub base_url: String,
    pub email: String,
    pub api_token: String,
    pub board_id: Option<String>,
    pub err: Option<String>,
}

/// A setting is given: present and not only white space.
pub open spec fn given(v: Option<String>) -> bool {
    v matches Some(s) && trimmed(s@).len() > 0
}

/// `[name]` where the setting is not given, else nothing.
pub open spec fn if_missing(v: Option<String>, name: Seq<char>) -> Seq<Seq<char>> {
    if given(v) {
        Seq::empty()
    } else {
        seq![name]
    }
}

/// The names of the settings that are not given, in a fixed order.
pub open spec fn missing_settings(
    base_url: Option<String>,
    email: Option<String>,
    api_token: Option<String>,
    board_id: Option<String>,
) -> Seq<Seq<char>> {
    if_missing(base_url, "JIRA_BASE_URL"@) + if_missing(email, "JIRA_EMAIL"@) + if_missing(
        api_token,
        "JIRA_API_TOKEN"@,
    ) + if_missing(board_id, "JIRA_BOARD_ID"@)
}

/// The value of a given setting; empty where it is not given.
pub open spec fn given_or_empty(v: Option<String>) -> Seq<char> {
    if given(v) {
        v->0@
    } else {
        Seq::empty()
    }
}

/// The names joined with ", ".
fn join_names(names: &Vec<&'static str>) -> (r: String)
    ensures
        r@ == joined(names@.map_values(|n: &str| n@), ", "@),
{
    let ghost all = names@.map_values(|n: &str| n@);
    let mut r = String::new();
    let mut i: usize = 0;
    while i < names.len()
        invariant
            i <= names@.len(),
            all == names@.map_values(|n: &str| n@),
            r@ == joined(all.take(i as int), ", "@),
        decreases names.len() - i,
    {
        assert(all.take(i as int + 1).drop_last() =~= all.take(i as int));
        if i > 0 {
            r.append(", ");
        }
        r.append(names[i]);
        i += 1;
    }
    assert(all.take(names@.len() as int) =~= all);
    r
}

/// A setting's value where it is given.
fn given_value(v: &Option<String>) -> (r: Option<&String>)
    ensures
        r is Some == given(*v),
        r matches Some(s) ==> *s == v->0,
{
    match v {
        Some(s) => {
            if trim(s.as_str()).is_empty() {
                None
            } else {
                Some(s)
            }
        },
        None => None,
    }
}

impl JiraSettings {
    /// The settings from the four raw values: the base URL without trailing
    /// slashes, the board id trimmed, and, where any value is missing or
    /// blank, `err` naming each such setting after "missing ".
    pub fn from_parts(
        base_url: Option<String>,
        email: Option<String>,
        api_token: Option<String>,
        board_id: Option<String>,
    ) -> (r: JiraSettings)
        ensures
            r.base_url@ == if given(base_url) {
                strip_trailing(base_url->0@, '/')
            } else {
                Seq::empty()
            },
            r.email@ == given_or_empty(email),
            r.api_token@ == given_or_empty(api_token),
            given(board_id) ==> (r.board_id matches Some(b) && b@ == trimmed(board_id->0@)),
            !given(board_id) ==> r.board_id is None,
            ({
                let missing = missing_settings(base_url, email, api_token, board_id);
                &&& missing.len() == 0 ==> r.err is None
                &&& missing.len() > 0 ==> (r.err matches Some(e) && e@ == "missing "@ + joined(
                    missing,
                    ", "@,
                ))
            }),
    {
        let mut missing: Vec<&'static str> = Vec::new();
        let base = match given_value(&base_url) {
            Some(v) => String::from_str(trim_end_char(v.as_str(), '/')),
            None => {
                missing.push("JIRA_BASE_URL");
                String::new()
            },
        };
        let mail = match given_value(&email) {
            Some(v) => v.clone(),
            None => {
                missing.push("JIRA_EMAIL");
                String::new()
            },
        };
        let token = match given_value(&api_token) {
            Some(v) => v.clone(),
            None => {
                missing.push("JIRA_API_TOKEN");
                String::new()
            },
        };
        let board = match given_value(&board_id) {
            Some(v) => Some(String::from_str(trim(v.as_str()))),
            None => {
                missing.push("JIRA_BOARD_ID");
                None
            },
        };
        assert(missing@.map_values(|n: &str| n@) =~= missing_settings(
            base_url,
            email,
            api_token,
            board_id,
        ));
        let err = if missing.len() == 0 {
            None
        } else {
            Some(String::from_str("missing ").concat(join_names(&missing).as_str()))
        };
        JiraSettings { base_url: base, email: mail, api_token: token, board_id: board, err }
    }

    /// Whether the settings are complete: where a setting is missing, the
    /// parse error "jira misconfigured: " followed by `err`.
    pub fn check(&self) -> (r: Result<(), ProviderError>)
        ensures
            self.err is None ==> r is Ok,
            self.err matches Some(e) ==> (r matches Err(ProviderError::Parse { msg }) && msg@
                == "jira misconfigured: "@ + e@),
    {
        match &self.err {
            Some(e) => Err(
                ProviderError::Parse {
                    msg: String::from_str("jira misconfigured: ").concat(e.as_str()),
                },
            ),
            None => Ok(()),
        }
    }

    /// The board id to load, once the settings are complete.
    pub fn board_to_load(&self) -> (r: Result<String, ProviderError>)
        ensures
            self.err matches Some(e) ==> (r matches Err(ProviderError::Parse { msg }) && msg@
                == "jira misconfigured: "@ + e@),
            self.err is None ==> match self.board_id {
                Some(b) => r == Ok::<String, ProviderError>(b),
                None => r matches Err(ProviderError::Parse { msg }) && msg@
                    == "jira misconfigured: missing JIRA_BOARD_ID"@,
            },
    {
        match self.check() {
            Err(e) => Err(e),
            Ok(()) => match &self.board_id {
                Some(b) => Ok(b.clone()),
                None => Err(
                    ProviderError::Parse {
                        msg: String::from_str("jira misconfigured: missing JIRA_BOARD_ID"),
                    },
                ),
            },
        }
    }

    /// The address of an issue's transitions.
    pub fn transitions_url(&self, issue_key: &str) -> (r: String)
        ensures
            r@ == self.base_url@ + "/rest/api/3/issue/"@ + issue_key@ + "/transitions"@,
    {
        self.base_url.clone().concat("/rest/api/3/issue/").concat(issue_key).concat("/transitions")
    }

    /// The address of a board's configuration.
    pub fn board_config_url(&self, board_id: &str) -> (r: String)
        ensures
            r@ == self.base_url@ + "/rest/agile/1.0/board/"@ + board_id@ + "/configuration"@,
    {
        self.base_url.clone().concat("/rest/agile/1.0/board/").concat(board_id).concat(
            "/configuration",
        )
    }

    /// The address of the issue search.
    pub fn search_url(&self) -> (r: String)
        ensures
            r@ == self.base_url@ + "/rest/api/3/search/jql"@,
    {
        self.base_url.clone().concat("/rest/api/3/search/jql")
    }
}

/// The query for the current user's issues in open sprints of the board
/// whose filter is `filter_id`.
pub fn search_jql(filter_id: &str) -> (r: String)
    ensures
        r@ == "filter="@ + filter_id@
            + " AND assignee = currentUser() AND sprint in openSprints()"@,
{
    String::from_str("filter=").concat(filter_id).concat(
        " AND assignee = currentUser() AND sprint in openSprints()",
    )
}

} // verus!
