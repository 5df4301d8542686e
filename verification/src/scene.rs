//! Searching loaded scenes: following a path of names down a hierarchy, finding nodes by name
//! prefix, and picking the scene instances that finished loading.
//!
//! A hierarchy is given as `(parent, child)` edges, children in order; names as
//! `(entity, name)` pairs. Entities are identified by their bits.

use vstd::prelude::*;

verus! {

/// The name of `e`: the first entry for it, if any.
pub open spec fn name_of(names: Seq<(u64, String)>, e: u64) -> Option<Seq<char>>
    decreases names.len(),
{
    if names.len() == 0 {
        None
    } else if names[0].0 == e {
        Some(names[0].1@)
    } else {
        name_of(names.drop_first(), e)
    }
}

/// The first child of `parent` (in edge order) named `part`.
pub open spec fn child_named(
    edges: Seq<(u64, u64)>,
    names: Seq<(u64, String)>,
    parent: u64,
    part: Seq<char>,
) -> Option<u64>
    decreases edges.len(),
{
    if edges.len() == 0 {
        None
    } else if edges[0].0 == parent && name_of(names, edges[0].1) == Some(part) {
        Some(edges[0].1)
    } else {
        child_named(edges.drop_first(), names, parent, part)
    }
}

/// The entity reached from `current` by following the names in `parts`.
pub open spec fn follow_path(
    edges: Seq<(u64, u64)>,
    names: Seq<(u64, String)>,
    current: u64,
    parts: Seq<String>,
) -> Option<u64>
    decreases parts.len(),
{
    if parts.len() == 0 {
        Some(current)
    } else {
        match child_named(edges, names, current, parts[0]@) {
            Some(c) => follow_path(edges, names, c, parts.drop_first()),
            None => None,
        }
    }
}

fn lookup_name<'a>(names: &'a Vec<(u64, String)>, e: u64) -> (r: Option<&'a String>)
    ensures
        match r {
            Some(s) => name_of(names@, e) == Some(s@),
            None => name_of(names@, e) is None,
        },
{
    let mut i: usize = 0;
    assert(names@.subrange(0, names@.len() as int) =~= names@);
    while i < names.len()
        invariant
            i <= names@.len(),
            name_of(names@, e) == name_of(names@.subrange(i as int, names@.len() as int), e),
        decreases names@.len() - i,
    {
        proof {
            let rest = names@.subrange(i as int, names@.len() as int);
            assert(rest.drop_first() =~= names@.subrange(i + 1, names@.len() as int));
        }
        if names[i].0 == e {
            return Some(&names[i].1);
        }
        i = i + 1;
    }
    None
}

fn find_child(edges: &Vec<(u64, u64)>, names: &Vec<(u64, String)>, parent: u64, part: &String) -> (r: Option<u64>)
    ensures
        r == child_named(edges@, names@, parent, part@),
{
    let mut i: usize = 0;
    assert(edges@.subrange(0, edges@.len() as int) =~= edges@);
    while i < edges.len()
        invariant
            i <= edges@.len(),
            child_named(edges@, names@, parent, part@) == child_named(
                edges@.subrange(i as int, edges@.len() as int),
                names@,
                parent,
                part@,
            ),
        decreases edges@.len() - i,
    {
        proof {
            let rest = edges@.subrange(i as int, edges@.len() as int);
            assert(rest.drop_first() =~= edges@.subrange(i + 1, edges@.len() as int));
        }
        assert(edges@.subrange(i as int, edges@.len() as int)[0] == edges@[i as int]);
        let (p, c) = edges[i];
        if p == parent {
            match lookup_name(names, c) {
                Some(name) => {
                    if name.eq(part) {
                        return Some(c);
                    }
                },
                None => {},
            }
        }
        i = i + 1;
    }
    None
}

/// Finds the entity at the end of `path` from `root`: each part names a child of the previous
/// entity (the first such child in order). Fails when a part has no matching child.
pub fn gltf_path_search(
    path: &Vec<String>,
    root: u64,
    edges: &Vec<(u64, u64)>,
    names: &Vec<(u64, String)>,
) -> (r: Result<u64, ()>)
    ensures
        match r {
            Ok(e) => follow_path(edges@, names@, root, path@) == Some(e),
            Err(_) => follow_path(edges@, names@, root, path@) is None,
        },
{
    let mut current = root;
    let mut k: usize = 0;
    assert(path@.subrange(0, path@.len() as int) =~= path@);
    while k < path.len()
        invariant
            k <= path@.len(),
            follow_path(edges@, names@, root, path@) == follow_path(
                edges@,
                names@,
                current,
                path@.subrange(k as int, path@.len() as int),
            ),
        decreases path@.len() - k,
    {
        proof {
            let rest = path@.subrange(k as int, path@.len() as int);
            assert(rest.drop_first() =~= path@.subrange(k + 1, path@.len() as int));
            assert(rest[0] == path@[k as int]);
        }
        match find_child(edges, names, current, &path[k]) {
            Some(c) => {
                current = c;
            },
            None => {
                return Err(());
            },
        }
        k = k + 1;
    }
    proof {
        assert(path@.subrange(k as int, path@.len() as int).len() == 0);
    }
    Ok(current)
}

/// Whether `s` starts with `prefix`.
pub open spec fn has_prefix(s: Seq<char>, prefix: Seq<char>) -> bool {
    prefix.len() <= s.len() && s.subrange(0, prefix.len() as int) == prefix
}

fn starts_with(s: &String, prefix: &str) -> (b: bool)
    ensures
        b == has_prefix(s@, prefix@),
{
    let t = s.as_str();
    assert(t@ == s@);
    let n = t.unicode_len();
    let m = prefix.unicode_len();
    if m > n {
        return false;
    }
    let mut i: usize = 0;
    while i < m
        invariant
            m <= n,
            t@ == s@,
            n == t@.len(),
            m == prefix@.len(),
            i <= m,
            forall|j: int| 0 <= j < i ==> t@[j] == prefix@[j],
        decreases m - i,
    {
        if t.get_char(i) != prefix.get_char(i) {
            assert(t@.subrange(0, m as int)[i as int] != prefix@[i as int]);
            return false;
        }
        i = i + 1;
    }
    assert(t@.subrange(0, m as int) =~= prefix@);
    true
}

/// The entities among `entities` (in order) whose name starts with `prefix`; unnamed entities
/// are skipped.
pub open spec fn prefix_matches(prefix: Seq<char>, entities: Seq<u64>, names: Seq<(u64, String)>) -> Seq<u64> {
    entities.filter(
        |e: u64|
            match name_of(names, e) {
                Some(n) => has_prefix(n, prefix),
                None => false,
            },
    )
}

/// The entities of a scene instance (in order) whose name starts with `prefix`; unnamed
/// entities are skipped.
pub fn gltf_prefix_search(prefix: &str, instance_entities: &Vec<u64>, names: &Vec<(u64, String)>) -> (found: Vec<u64>)
    ensures
        found@ == prefix_matches(prefix@, instance_entities@, names@),
{
    let ghost f = |e: u64|
        match name_of(names@, e) {
            Some(n) => has_prefix(n, prefix@),
            None => false,
        };
    let mut found: Vec<u64> = Vec::new();
    let mut i: usize = 0;
    while i < instance_entities.len()
        invariant
            i <= instance_entities@.len(),
            f == (|e: u64|
                match name_of(names@, e) {
                    Some(n) => has_prefix(n, prefix@),
                    None => false,
                }),
            found@ == instance_entities@.subrange(0, i as int).filter(f),
        decreases instance_entities@.len() - i,
    {
        let e = instance_entities[i];
        proof {
            assert(instance_entities@.subrange(0, i + 1).drop_last() =~= instance_entities@.subrange(0, i as int));
            reveal_with_fuel(Seq::<_>::filter, 1);
        }
        let keep = match lookup_name(names, e) {
            Some(n) => starts_with(n, prefix),
            None => false,
        };
        if keep {
            found.push(e);
        }
        assert(found@ =~= instance_entities@.subrange(0, i + 1).filter(f));
        i = i + 1;
    }
    assert(instance_entities@.subrange(0, instance_entities@.len() as int) =~= instance_entities@);
    found
}

/// The scene instances `(entity, instance, ready)` that finished loading, as
/// `(entity, instance)` in order; their initializer markers are then removed.
pub fn ready_scene_instances(instances: &Vec<(u64, u64, bool)>) -> (ready: Vec<(u64, u64)>)
    ensures
        ready@ == instances@.filter(|i: (u64, u64, bool)| i.2).map_values(
            |i: (u64, u64, bool)| (i.0, i.1),
        ),
{
    let ghost f = |i: (u64, u64, bool)| i.2;
    let ghost m = |i: (u64, u64, bool)| (i.0, i.1);
    let mut ready: Vec<(u64, u64)> = Vec::new();
    let mut k: usize = 0;
    while k < instances.len()
        invariant
            k <= instances@.len(),
            f == (|i: (u64, u64, bool)| i.2),
            m == (|i: (u64, u64, bool)| (i.0, i.1)),
            ready@ == instances@.subrange(0, k as int).filter(f).map_values(m),
        decreases instances@.len() - k,
    {
        let (e, id, is_ready) = instances[k];
        proof {
            assert(instances@.subrange(0, k + 1).drop_last() =~= instances@.subrange(0, k as int));
            reveal_with_fuel(Seq::<_>::filter, 1);
        }
        if is_ready {
            ready.push((e, id));
        }
        assert(ready@ =~= instances@.subrange(0, k + 1).filter(f).map_values(m));
        k = k + 1;
    }
    assert(instances@.subrange(0, instances@.len() as int) =~= instances@);
    ready
}

} // verus!
