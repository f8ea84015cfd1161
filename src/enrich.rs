//! Enrichment data keyed by a map's normalized name: display names, player
//! spawns and extracts.
use vstd::prelude::*;
use crate::error::FetchError;
use crate::model::{Extract, Point3, Spawn};

verus! {

#[derive(Clone, Debug)]
pub struct MapName {
    pub normalized_name: String,
    pub name: String,
}

#[derive(Clone, Debug)]
pub struct MapSpawns {
    pub normalized_name: String,
    pub spawns: Vec<Spawn>,
}

/// An extract as the service reports it: name and faction may be missing.
#[derive(Clone, Debug)]
pub struct RawExtract {
    pub name: Option<String>,
    pub faction: Option<String>,
    pub position: Option<Point3>,
}

#[derive(Clone, Debug)]
pub struct RawMapExtracts {
    pub normalized_name: String,
    pub extracts: Vec<RawExtract>,
}

#[derive(Clone, Debug)]
pub struct MapExtracts {
    pub normalized_name: String,
    pub extracts: Vec<Extract>,
}

/// All enrichment tables of one run.
#[derive(Clone, Debug)]
pub struct Enrichment {
    pub names: Vec<MapName>,
    pub spawns: Vec<MapSpawns>,
    pub extracts: Vec<MapExtracts>,
}

pub open spec fn contains_text(v: Seq<String>, t: Seq<char>) -> bool {
    exists|i: int| 0 <= i < v.len() && (#[trigger] v[i])@ == t
}

/// A spawn that a player of the main faction can use: a side `"pmc"` or
/// `"all"`, and the category `"player"`.
pub open spec fn is_player_spawn(s: Spawn) -> bool {
    (contains_text(s.sides@, "pmc"@) || contains_text(s.sides@, "all"@)) && contains_text(
        s.categories@,
        "player"@,
    )
}

/// The player spawns of `s`, in order.
pub open spec fn player_spawns_of(s: Seq<Spawn>) -> Seq<Spawn>
    decreases s.len(),
{
    if s.len() == 0 {
        s
    } else if is_player_spawn(s.last()) {
        player_spawns_of(s.drop_last()).push(s.last())
    } else {
        player_spawns_of(s.drop_last())
    }
}

fn has_text(v: &Vec<String>, t: &String) -> (r: bool)
    ensures
        r == contains_text(v@, t@),
{
    let mut i: usize = 0;
    while i < v.len()
        invariant
            i <= v@.len(),
            forall|j: int| 0 <= j < i ==> (#[trigger] v@[j])@ != t@,
        decreases v@.len() - i,
    {
        if v[i] == *t {
            return true;
        }
        i = i + 1;
    }
    false
}

pub fn is_player_spawn_exec(s: &Spawn) -> (r: bool)
    ensures
        r == is_player_spawn(*s),
{
    let pmc = String::from_str("pmc");
    let all = String::from_str("all");
    let player = String::from_str("player");
    (has_text(&s.sides, &pmc) || has_text(&s.sides, &all)) && has_text(&s.categories, &player)
}

/// Keeps the spawns that players of the main faction use, in order.
pub fn player_spawns(spawns: Vec<Spawn>) -> (r: Vec<Spawn>)
    ensures
        r@ == player_spawns_of(spawns@),
{
    let ghost orig = spawns@;
    let total = spawns.len();
    let mut rest = spawns;
    let mut out: Vec<Spawn> = Vec::new();
    let mut k: usize = 0;
    while rest.len() > 0
        invariant
            k + rest@.len() == orig.len(),
            orig.len() == total,
            rest@ == orig.skip(k as int),
            out@ == player_spawns_of(orig.take(k as int)),
        decreases rest@.len(),
    {
        let s = rest.remove(0);
        proof {
            assert(orig.take(k + 1).drop_last() =~= orig.take(k as int));
            assert(orig.skip(k as int + 1) =~= orig.skip(k as int).drop_first());
        }
        if is_player_spawn_exec(&s) {
            out.push(s);
        }
        k = k + 1;
    }
    assert(orig.take(k as int) =~= orig);
    out
}

/// Filters the spawns of every map.
pub fn spawn_table(maps: Vec<MapSpawns>) -> (r: Vec<MapSpawns>)
    ensures
        r@.len() == maps@.len(),
        forall|i: int|
            0 <= i < maps@.len() ==> (#[trigger] r@[i]).normalized_name == maps@[i].normalized_name
                && r@[i].spawns@ == player_spawns_of(maps@[i].spawns@),
{
    let ghost orig = maps@;
    let mut rest = maps;
    let mut out: Vec<MapSpawns> = Vec::new();
    while rest.len() > 0
        invariant
            out@.len() + rest@.len() == orig.len(),
            rest@ == orig.skip(out@.len() as int),
            forall|i: int|
                0 <= i < out@.len() ==> (#[trigger] out@[i]).normalized_name
                    == orig[i].normalized_name && out@[i].spawns@ == player_spawns_of(
                    orig[i].spawns@,
                ),
        decreases rest@.len(),
    {
        let m = rest.remove(0);
        let ghost k = out@.len();
        assert(orig.skip(k as int + 1) =~= orig.skip(k as int).drop_first());
        let MapSpawns { normalized_name, spawns } = m;
        out.push(MapSpawns { normalized_name, spawns: player_spawns(spawns) });
    }
    out
}

/// The extract, when the service gave both its name and its faction.
pub open spec fn extract_of(e: RawExtract) -> Option<Extract> {
    if e.name is Some && e.faction is Some {
        Some(Extract { name: e.name.unwrap(), faction: e.faction.unwrap(), position: e.position })
    } else {
        None
    }
}

pub open spec fn extracts_of(s: Seq<RawExtract>) -> Seq<Extract>
    decreases s.len(),
{
    if s.len() == 0 {
        Seq::empty()
    } else {
        match extract_of(s.last()) {
            Some(e) => extracts_of(s.drop_last()).push(e),
            None => extracts_of(s.drop_last()),
        }
    }
}

pub fn extract_from_raw(e: RawExtract) -> (r: Option<Extract>)
    ensures
        r == extract_of(e),
{
    match (e.name, e.faction) {
        (Some(name), Some(faction)) => Some(Extract { name, faction, position: e.position }),
        _ => None,
    }
}

/// Keeps the extracts that have a name and a faction, in order.
pub fn extracts_from_raw(extracts: Vec<RawExtract>) -> (r: Vec<Extract>)
    ensures
        r@ == extracts_of(extracts@),
{
    let ghost orig = extracts@;
    let total = extracts.len();
    let mut rest = extracts;
    let mut out: Vec<Extract> = Vec::new();
    let mut k: usize = 0;
    while rest.len() > 0
        invariant
            k + rest@.len() == orig.len(),
            orig.len() == total,
            rest@ == orig.skip(k as int),
            out@ == extracts_of(orig.take(k as int)),
        decreases rest@.len(),
    {
        let e = rest.remove(0);
        proof {
            assert(orig.take(k + 1).drop_last() =~= orig.take(k as int));
            assert(orig.skip(k as int + 1) =~= orig.skip(k as int).drop_first());
        }
        match extract_from_raw(e) {
            Some(x) => out.push(x),
            None => {},
        }
        k = k + 1;
    }
    assert(orig.take(k as int) =~= orig);
    out
}

/// Converts the extracts of every map.
pub fn extract_table(maps: Vec<RawMapExtracts>) -> (r: Vec<MapExtracts>)
    ensures
        r@.len() == maps@.len(),
        forall|i: int|
            0 <= i < maps@.len() ==> (#[trigger] r@[i]).normalized_name == maps@[i].normalized_name
                && r@[i].extracts@ == extracts_of(maps@[i].extracts@),
{
    let ghost orig = maps@;
    let mut rest = maps;
    let mut out: Vec<MapExtracts> = Vec::new();
    while rest.len() > 0
        invariant
            out@.len() + rest@.len() == orig.len(),
            rest@ == orig.skip(out@.len() as int),
            forall|i: int|
                0 <= i < out@.len() ==> (#[trigger] out@[i]).normalized_name
                    == orig[i].normalized_name && out@[i].extracts@ == extracts_of(
                    orig[i].extracts@,
                ),
        decreases rest@.len(),
    {
        let m = rest.remove(0);
        let ghost k = out@.len();
        assert(orig.skip(k as int + 1) =~= orig.skip(k as int).drop_first());
        let RawMapExtracts { normalized_name, extracts } = m;
        out.push(MapExtracts { normalized_name, extracts: extracts_from_raw(extracts) });
    }
    out
}

/// Index of the last name entry for `key`: a later entry replaces an earlier one.
pub open spec fn last_name_index(names: Seq<MapName>, key: Seq<char>) -> Option<int>
    decreases names.len(),
{
    if names.len() == 0 {
        None
    } else if names.last().normalized_name@ == key {
        Some(names.len() - 1)
    } else {
        last_name_index(names.drop_last(), key)
    }
}

pub open spec fn last_spawns_index(t: Seq<MapSpawns>, key: Seq<char>) -> Option<int>
    decreases t.len(),
{
    if t.len() == 0 {
        None
    } else if t.last().normalized_name@ == key {
        Some(t.len() - 1)
    } else {
        last_spawns_index(t.drop_last(), key)
    }
}

pub open spec fn last_extracts_index(t: Seq<MapExtracts>, key: Seq<char>) -> Option<int>
    decreases t.len(),
{
    if t.len() == 0 {
        None
    } else if t.last().normalized_name@ == key {
        Some(t.len() - 1)
    } else {
        last_extracts_index(t.drop_last(), key)
    }
}

/// The display name for `key`.
pub fn lookup_name(names: &Vec<MapName>, key: &String) -> (r: Option<String>)
    ensures
        r.is_some() == last_name_index(names@, key@).is_some(),
        r.is_some() ==> r.unwrap() == names@[last_name_index(names@, key@).unwrap()].name,
{
    let mut i: usize = names.len();
    assert(names@.take(i as int) =~= names@);
    while i > 0
        invariant
            i <= names@.len(),
            last_name_index(names@, key@) == last_name_index(names@.take(i as int), key@),
        decreases i,
    {
        assert(names@.take(i as int).drop_last() =~= names@.take(i - 1));
        if names[i - 1].normalized_name == *key {
            return Some(names[i - 1].name.clone());
        }
        i = i - 1;
    }
    None
}

pub fn copy_texts(v: &Vec<String>) -> (r: Vec<String>)
    ensures
        r@ == v@,
{
    let mut out: Vec<String> = Vec::new();
    let mut i: usize = 0;
    while i < v.len()
        invariant
            i <= v@.len(),
            out@ == v@.take(i as int),
        decreases v@.len() - i,
    {
        out.push(v[i].clone());
        assert(out@ =~= v@.take(i + 1));
        i = i + 1;
    }
    assert(v@.take(i as int) =~= v@);
    out
}

/// Two spawns with the same position, sides and categories.
pub open spec fn same_spawn(a: Spawn, b: Spawn) -> bool {
    a.position == b.position && a.sides@ == b.sides@ && a.categories@ == b.categories@
}

pub open spec fn same_spawns(a: Seq<Spawn>, b: Seq<Spawn>) -> bool {
    a.len() == b.len() && forall|i: int| 0 <= i < a.len() ==> same_spawn(#[trigger] a[i], b[i])
}

pub fn copy_spawns(v: &Vec<Spawn>) -> (r: Vec<Spawn>)
    ensures
        same_spawns(r@, v@),
{
    let mut out: Vec<Spawn> = Vec::new();
    let mut i: usize = 0;
    while i < v.len()
        invariant
            i <= v@.len(),
            out@.len() == i,
            forall|j: int| 0 <= j < i ==> same_spawn(#[trigger] out@[j], v@[j]),
        decreases v@.len() - i,
    {
        let s = &v[i];
        out.push(
            Spawn {
                position: s.position,
                sides: copy_texts(&s.sides),
                categories: copy_texts(&s.categories),
            },
        );
        i = i + 1;
    }
    out
}

pub fn copy_extracts(v: &Vec<Extract>) -> (r: Vec<Extract>)
    ensures
        r@ == v@,
{
    let mut out: Vec<Extract> = Vec::new();
    let mut i: usize = 0;
    while i < v.len()
        invariant
            i <= v@.len(),
            out@ == v@.take(i as int),
        decreases v@.len() - i,
    {
        let e = &v[i];
        out.push(Extract { name: e.name.clone(), faction: e.faction.clone(), position: e.position });
        assert(out@ =~= v@.take(i + 1));
        i = i + 1;
    }
    assert(v@.take(i as int) =~= v@);
    out
}

/// A copy of the last spawn list for `key`.
pub fn lookup_spawns(table: &Vec<MapSpawns>, key: &String) -> (r: Option<Vec<Spawn>>)
    ensures
        r.is_some() == last_spawns_index(table@, key@).is_some(),
        r.is_some() ==> same_spawns(
            r.unwrap()@,
            table@[last_spawns_index(table@, key@).unwrap()].spawns@,
        ),
{
    let mut i: usize = table.len();
    assert(table@.take(i as int) =~= table@);
    while i > 0
        invariant
            i <= table@.len(),
            last_spawns_index(table@, key@) == last_spawns_index(table@.take(i as int), key@),
        decreases i,
    {
        assert(table@.take(i as int).drop_last() =~= table@.take(i - 1));
        if table[i - 1].normalized_name == *key {
            return Some(copy_spawns(&table[i - 1].spawns));
        }
        i = i - 1;
    }
    None
}

/// A copy of the last extract list for `key`.
pub fn lookup_extracts(table: &Vec<MapExtracts>, key: &String) -> (r: Option<Vec<Extract>>)
    ensures
        r.is_some() == last_extracts_index(table@, key@).is_some(),
        r.is_some() ==> r.unwrap()@ == table@[last_extracts_index(table@, key@).unwrap()].extracts@,
{
    let mut i: usize = table.len();
    assert(table@.take(i as int) =~= table@);
    while i > 0
        invariant
            i <= table@.len(),
            last_extracts_index(table@, key@) == last_extracts_index(table@.take(i as int), key@),
        decreases i,
    {
        assert(table@.take(i as int).drop_last() =~= table@.take(i - 1));
        if table[i - 1].normalized_name == *key {
            return Some(copy_extracts(&table[i - 1].extracts));
        }
        i = i - 1;
    }
    None
}

/// `parts` joined with `sep` between neighbours.
pub open spec fn joined(parts: Seq<String>, sep: Seq<char>) -> Seq<char>
    decreases parts.len(),
{
    if parts.len() == 0 {
        Seq::empty()
    } else if parts.len() == 1 {
        parts[0]@
    } else {
        joined(parts.drop_last(), sep) + sep + parts.last()@
    }
}

pub fn join_messages(parts: &Vec<String>, sep: &str) -> (r: String)
    ensures
        r@ == joined(parts@, sep@),
{
    let mut out = String::new();
    let mut i: usize = 0;
    while i < parts.len()
        invariant
            i <= parts@.len(),
            out@ == joined(parts@.take(i as int), sep@),
        decreases parts@.len() - i,
    {
        assert(parts@.take(i + 1).drop_last() =~= parts@.take(i as int));
        if i > 0 {
            out.append(sep);
        }
        out.append(parts[i].as_str());
        i = i + 1;
    }
    assert(parts@.take(i as int) =~= parts@);
    out
}

pub open spec fn reports_errors(errors: Option<Vec<String>>) -> bool {
    errors matches Some(es) && es@.len() > 0
}

/// The data of a query response: an error when the service reported any,
/// else the data when present.
pub fn graphql_data<T>(errors: Option<Vec<String>>, data: Option<T>) -> (r: Result<T, FetchError>)
    ensures
        reports_errors(errors) ==> (r matches Err(FetchError::GraphQL(m)) && m@ == joined(
            errors.unwrap()@,
            "; "@,
        )),
        !reports_errors(errors) ==> match data {
            Some(d) => r == Ok::<T, FetchError>(d),
            None => r matches Err(FetchError::GraphQLMissingData),
        },
{
    if let Some(es) = &errors {
        if es.len() > 0 {
            return Err(FetchError::GraphQL(join_messages(es, "; ")));
        }
    }
    match data {
        Some(d) => Ok(d),
        None => Err(FetchError::GraphQLMissingData),
    }
}

/// A response status outside `200..=299` fails the request for `resource`.
pub fn check_status(resource: &str, status: u16) -> (r: Result<(), FetchError>)
    ensures
        200 <= status <= 299 <==> r.is_ok(),
        r matches Err(FetchError::HttpStatus { resource: res, status: s }) ==> (res@ == resource@
            && s == status),
        r is Err ==> r matches Err(FetchError::HttpStatus { .. }),
{
    if 200 <= status && status <= 299 {
        Ok(())
    } else {
        Err(FetchError::HttpStatus { resource: String::from_str(resource), status })
    }
}

} // verus!
