//! The rules by which the compiler puts a program together from the
//! standard library's modules and the user's file: every name is defined
//! once in the standard library, and the user may not redefine one of them.
use vstd::prelude::*;
use crate::ast::{Item, Program};
use crate::text::same_text;

verus! {

/// The name an item declares; `use` and `implement` declare none.
pub open spec fn declared_name(item: Item) -> Option<Seq<char>> {
    match item {
        Item::FnDef(f) => Some(f.name@),
        Item::StructDef(s) => Some(s.name@),
        Item::EnumDef(e) => Some(e.name@),
        Item::ConstDef(c) => Some(c.name@),
        Item::ModelDef(m) => Some(m.name@),
        Item::ProtoDef(p) => Some(p.name@),
        Item::Interface(i) => Some(i.name@),
        Item::Use(_) => None,
        Item::Implement(_) => None,
    }
}

/// The name an item declares, if any.
pub fn item_name(item: &Item) -> (r: Option<&str>)
    ensures
        match r {
            Some(s) => declared_name(*item) == Some(s@),
            None => declared_name(*item) is None,
        },
{
    match item {
        Item::FnDef(f) => Some(f.name.as_str()),
        Item::StructDef(s) => Some(s.name.as_str()),
        Item::EnumDef(e) => Some(e.name.as_str()),
        Item::ConstDef(c) => Some(c.name.as_str()),
        Item::ModelDef(m) => Some(m.name.as_str()),
        Item::ProtoDef(p) => Some(p.name.as_str()),
        Item::Interface(iface) => Some(iface.name.as_str()),
        Item::Use(_) => None,
        Item::Implement(_) => None,
    }
}

/// Some item of `items` declares `name`.
pub open spec fn declares(items: Seq<Item>, name: Seq<char>) -> bool {
    exists|i: int| 0 <= i < items.len() && declared_name(#[trigger] items[i]) == Some(name)
}

/// Some item of `items[..i]` declares `name`.
pub open spec fn declares_upto(items: Seq<Item>, name: Seq<char>, i: int) -> bool {
    exists|q: int| 0 <= q < i && declared_name(#[trigger] items[q]) == Some(name)
}

/// The first of `user[i..]` that declares a name the standard library
/// declares too.
pub open spec fn first_conflict(stdlib: Seq<Item>, user: Seq<Item>, i: int) -> Option<int>
    decreases user.len() - i,
{
    if i < 0 || i >= user.len() {
        None
    } else if declared_name(user[i]) matches Some(n) && declares(stdlib, n) {
        Some(i)
    } else {
        first_conflict(stdlib, user, i + 1)
    }
}

pub open spec fn conflict_text(name: Seq<char>, file: Seq<char>) -> Seq<char> {
    "error: `"@ + name + "` in "@ + file + " conflicts with a standard library definition of the same name."@
}

/// Whether one of `names` is `name`.
fn has_name(names: &Vec<String>, name: &str) -> (r: bool)
    ensures
        r == exists|i: int| 0 <= i < names@.len() && #[trigger] names@[i]@ == name@,
{
    let mut i: usize = 0;
    while i < names.len()
        invariant
            i <= names@.len(),
            forall|j: int| 0 <= j < i ==> #[trigger] names@[j]@ != name@,
        decreases names.len() - i,
    {
        if same_text(names[i].as_str(), name) {
            return true;
        }
        i += 1;
    }
    false
}

/// The program of the standard library's items followed by the user's,
/// unless a user item redefines a name of the standard library: the first
/// such item is reported.
pub fn merge_with_conflict_check(stdlib_items: Vec<Item>, user_items: Vec<Item>, user_filename: &str) -> (r:
    Result<Program, String>)
    ensures
        match first_conflict(stdlib_items@, user_items@, 0) {
            Some(j) => r matches Err(m) && declared_name(user_items@[j]) matches Some(n) && m@
                == conflict_text(n, user_filename@),
            None => r matches Ok(p) && p.items@ == stdlib_items@ + user_items@,
        },
{
    let mut names: Vec<String> = Vec::new();
    let mut i: usize = 0;
    while i < stdlib_items.len()
        invariant
            i <= stdlib_items@.len(),
            forall|n: Seq<char>|
                (exists|k: int| 0 <= k < names@.len() && #[trigger] names@[k]@ == n) <==> #[trigger] declares_upto(
                    stdlib_items@,
                    n,
                    i as int,
                ),
        decreases stdlib_items.len() - i,
    {
        let ghost before = names@;
        let found = item_name(&stdlib_items[i]);
        if let Some(n) = found {
            names.push(n.to_string());
        }
        proof {
            assert forall|n: Seq<char>|
                (exists|k: int| 0 <= k < names@.len() && #[trigger] names@[k]@ == n) <==> #[trigger] declares_upto(
                    stdlib_items@,
                    n,
                    i + 1,
                ) by {
                if exists|k: int| 0 <= k < names@.len() && #[trigger] names@[k]@ == n {
                    let k = choose|k: int| 0 <= k < names@.len() && #[trigger] names@[k]@ == n;
                    if k < before.len() {
                        assert(before[k]@ == n);
                        assert(declares_upto(stdlib_items@, n, i as int));
                        let q = choose|q: int|
                            0 <= q < i && declared_name(#[trigger] stdlib_items@[q]) == Some(n);
                        assert(0 <= q < i + 1 && declared_name(stdlib_items@[q]) == Some(n));
                    } else {
                        assert(declared_name(stdlib_items@[i as int]) == Some(n));
                    }
                }
                if declares_upto(stdlib_items@, n, i + 1) {
                    let q = choose|q: int| 0 <= q < i + 1 && declared_name(#[trigger] stdlib_items@[q]) == Some(n);
                    if q < i {
                        assert(declares_upto(stdlib_items@, n, i as int));
                        let k = choose|k: int| 0 <= k < before.len() && #[trigger] before[k]@ == n;
                        assert(names@[k] == before[k]);
                    } else {
                        assert(names@[names@.len() - 1]@ == n);
                    }
                }
            }
        }
        i += 1;
    }
    proof {
        assert forall|n: Seq<char>| #[trigger] declares(stdlib_items@, n) == declares_upto(stdlib_items@, n, stdlib_items@.len() as int) by {
            if declares(stdlib_items@, n) {
                let q = choose|q: int| 0 <= q < stdlib_items@.len() && declared_name(#[trigger] stdlib_items@[q]) == Some(n);
                assert(declares_upto(stdlib_items@, n, stdlib_items@.len() as int));
            }
        }
    }
    let mut j: usize = 0;
    while j < user_items.len()
        invariant
            j <= user_items@.len(),
            forall|n: Seq<char>|
                (exists|k: int| 0 <= k < names@.len() && #[trigger] names@[k]@ == n) <==> declares(
                    stdlib_items@,
                    n,
                ),
            first_conflict(stdlib_items@, user_items@, 0) == first_conflict(
                stdlib_items@,
                user_items@,
                j as int,
            ),
        decreases user_items.len() - j,
    {
        if let Some(n) = item_name(&user_items[j]) {
            if has_name(&names, n) {
                let mut m = String::from_str("error: `");
                m.append(n);
                m.append("` in ");
                m.append(user_filename);
                m.append(" conflicts with a standard library definition of the same name.");
                return Err(m);
            }
        }
        j += 1;
    }
    let mut all_items = stdlib_items;
    let mut rest = user_items;
    all_items.append(&mut rest);
    Ok(Program { items: all_items })
}

/// The first position in `s[..n]` whose item declares `name`.
pub open spec fn first_definer(s: Seq<(String, Item)>, name: Seq<char>, n: int) -> Option<int>
    decreases n,
{
    if n <= 0 || n > s.len() {
        None
    } else {
        match first_definer(s, name, n - 1) {
            Some(k) => Some(k),
            None => if declared_name(s[n - 1].1) == Some(name) {
                Some(n - 1)
            } else {
                None
            },
        }
    }
}

/// The first position in `s[..n]` whose item declares a name that an
/// earlier item declared.
pub open spec fn first_duplicate(s: Seq<(String, Item)>, n: int) -> Option<int>
    decreases n,
{
    if n <= 0 || n > s.len() {
        None
    } else {
        match first_duplicate(s, n - 1) {
            Some(k) => Some(k),
            None => match declared_name(s[n - 1].1) {
                Some(name) => if first_definer(s, name, n - 1) is Some {
                    Some(n - 1)
                } else {
                    None
                },
                None => None,
            },
        }
    }
}

pub open spec fn duplicate_text(name: Seq<char>, first: Seq<char>, second: Seq<char>) -> Seq<char> {
    "duplicate definition `"@ + name + "` in stdlib: defined in both `"@ + first + "` and `"@ + second
        + "`"@
}

proof fn lemma_first_duplicate_stays(s: Seq<(String, Item)>, a: int, b: int)
    requires
        0 <= a <= b <= s.len(),
        first_duplicate(s, a) is Some,
    ensures
        first_duplicate(s, b) == first_duplicate(s, a),
    decreases b - a,
{
    if a < b {
        lemma_first_duplicate_stays(s, a, b - 1);
    }
}

/// The standard library's items, each given with the label of the module
/// that defines it, in load order; no name may be defined twice, and the
/// first redefinition is reported with the modules of both definitions.
pub fn collect_stdlib_items(labelled: Vec<(String, Item)>) -> (r: Result<Vec<Item>, String>)
    ensures
        match first_duplicate(labelled@, labelled@.len() as int) {
            Some(k) => r matches Err(m) && declared_name(labelled@[k].1) matches Some(name)
                && first_definer(labelled@, name, k) matches Some(j) && m@ == duplicate_text(
                name,
                labelled@[j].0@,
                labelled@[k].0@,
            ),
            None => r matches Ok(items) && items@.len() == labelled@.len() && forall|i: int|
                0 <= i < labelled@.len() ==> #[trigger] items@[i] == labelled@[i].1,
        },
{
    let ghost orig = labelled@;
    let n = labelled.len();
    let mut rest = labelled;
    let mut all_items: Vec<Item> = Vec::new();
    let mut names: Vec<String> = Vec::new();
    let mut labels: Vec<String> = Vec::new();
    let ghost mut pos: Seq<int> = Seq::empty();
    let mut i: usize = 0;
    while rest.len() > 0
        invariant
            labelled@ == orig,
            n == orig.len(),
            i <= n,
            rest@ == orig.skip(i as int),
            all_items@.len() == i,
            forall|q: int| 0 <= q < i ==> #[trigger] all_items@[q] == orig[q].1,
            first_duplicate(orig, i as int) is None,
            names@.len() == labels@.len(),
            names@.len() == pos.len(),
            forall|k: int|
                0 <= k < names@.len() ==> first_definer(orig, #[trigger] names@[k]@, i as int) == Some(pos[k])
                    && 0 <= pos[k] < i && labels@[k]@ == orig[pos[k]].0@,
            forall|nm: Seq<char>|
                #[trigger] first_definer(orig, nm, i as int) is Some ==> exists|k: int|
                    0 <= k < names@.len() && #[trigger] names@[k]@ == nm,
        decreases rest.len(),
    {
        let (label, item) = rest.remove(0);
        assert(label == orig[i as int].0 && item == orig[i as int].1);
        let ghost names_before = names@;
        if let Some(nm) = item_name(&item) {
            let mut k: usize = 0;
            while k < names.len()
                invariant
                    k <= names@.len(),
                    forall|q: int| 0 <= q < k ==> #[trigger] names@[q]@ != nm@,
                    labelled@ == orig,
                    n == orig.len(),
                    i < n,
                    label == orig[i as int].0,
                    declared_name(orig[i as int].1) == Some(nm@),
                    first_duplicate(orig, i as int) is None,
                    names@.len() == labels@.len(),
                    names@.len() == pos.len(),
                    forall|kk: int|
                        0 <= kk < names@.len() ==> first_definer(orig, #[trigger] names@[kk]@, i as int) == Some(
                            pos[kk],
                        ) && 0 <= pos[kk] < i && labels@[kk]@ == orig[pos[kk]].0@,
                decreases names.len() - k,
            {
                if same_text(names[k].as_str(), nm) {
                    let mut m = String::from_str("duplicate definition `");
                    m.append(nm);
                    m.append("` in stdlib: defined in both `");
                    m.append(labels[k].as_str());
                    m.append("` and `");
                    m.append(label.as_str());
                    m.append("`");
                    proof {
                        assert(names@[k as int]@ == nm@);
                        assert(labels@[k as int]@ == orig[pos[k as int]].0@);
                        assert(first_definer(orig, nm@, i as int) == Some(pos[k as int]));
                        assert(first_duplicate(orig, i + 1) == Some(i as int));
                        lemma_first_duplicate_stays(orig, i + 1, n as int);
                    }
                    return Err(m);
                }
                k += 1;
            }
            proof {
                if first_definer(orig, nm@, i as int) is Some {
                    let q = choose|q: int| 0 <= q < names@.len() && #[trigger] names@[q]@ == nm@;
                    assert(names@[q]@ != nm@);
                }
            }
            names.push(nm.to_string());
            labels.push(label);
            proof {
                pos = pos.push(i as int);
                assert forall|mm: Seq<char>|
                    #[trigger] first_definer(orig, mm, i + 1) is Some implies exists|k: int|
                        0 <= k < names@.len() && #[trigger] names@[k]@ == mm by {
                    if mm == nm@ {
                        assert(names@[names@.len() - 1]@ == mm);
                    } else {
                        assert(first_definer(orig, mm, i as int) is Some);
                        let k = choose|k: int| 0 <= k < names_before.len() && #[trigger] names_before[k]@ == mm;
                        assert(names@[k] == names_before[k]);
                    }
                }
            }
        }
        proof {
            if declared_name(orig[i as int].1) is None {
                assert forall|mm: Seq<char>|
                    #[trigger] first_definer(orig, mm, i + 1) is Some implies exists|k: int|
                        0 <= k < names@.len() && #[trigger] names@[k]@ == mm by {
                    assert(first_definer(orig, mm, i as int) is Some);
                }
            }
        }
        all_items.push(item);
        i += 1;
    }
    Ok(all_items)
}

/// `item` declares a name that one of `stdlib` declares too.
pub open spec fn redefines(stdlib: Seq<Item>, item: Item) -> bool {
    declared_name(item) matches Some(n) && declares(stdlib, n)
}

proof fn lemma_first_conflict(stdlib: Seq<Item>, user: Seq<Item>, i: int)
    requires
        0 <= i,
    ensures
        first_conflict(stdlib, user, i) matches Some(j) ==> i <= j < user.len() && redefines(stdlib, user[j])
            && forall|q: int| i <= q < j ==> !redefines(stdlib, #[trigger] user[q]),
        first_conflict(stdlib, user, i) is None ==> forall|q: int| i <= q < user.len() ==> !redefines(
            stdlib,
            #[trigger] user[q],
        ),
    decreases user.len() - i,
{
    if i < user.len() {
        lemma_first_conflict(stdlib, user, i + 1);
    }
}

/// Merging a user's file into the standard library fails exactly when one
/// of the user's items redefines a name that the standard library
/// declares, and it reports the first such item.
pub proof fn law_merge_refuses_redefinitions(stdlib: Seq<Item>, user: Seq<Item>)
    ensures
        first_conflict(stdlib, user, 0) is None <==> forall|q: int| 0 <= q < user.len() ==> !redefines(
            stdlib,
            #[trigger] user[q],
        ),
        first_conflict(stdlib, user, 0) matches Some(j) ==> 0 <= j < user.len() && redefines(stdlib, user[j])
            && forall|q: int| 0 <= q < j ==> !redefines(stdlib, #[trigger] user[q]),
{
    lemma_first_conflict(stdlib, user, 0);
    match first_conflict(stdlib, user, 0) {
        Some(j) => assert(redefines(stdlib, user[j])),
        None => {},
    }
}

/// Two positions of `s` whose items declare one name.
pub open spec fn same_declared(s: Seq<(String, Item)>, a: int, b: int) -> bool {
    declared_name(s[a].1) is Some && declared_name(s[a].1) == declared_name(s[b].1)
}

proof fn lemma_first_definer(s: Seq<(String, Item)>, name: Seq<char>, n: int)
    requires
        n <= s.len(),
    ensures
        first_definer(s, name, n) matches Some(j) ==> 0 <= j < n && declared_name(s[j].1) == Some(name),
        first_definer(s, name, n) is None ==> forall|q: int| 0 <= q < n ==> declared_name(#[trigger] s[q].1)
            != Some(name),
    decreases n,
{
    if n > 0 {
        lemma_first_definer(s, name, n - 1);
    }
}

proof fn lemma_first_duplicate(s: Seq<(String, Item)>, n: int)
    requires
        n <= s.len(),
    ensures
        first_duplicate(s, n) is None ==> forall|a: int, b: int| 0 <= a < b < n ==> !same_declared(s, a, b),
        first_duplicate(s, n) matches Some(k) ==> 0 <= k < n && (exists|a: int| 0 <= a < k && same_declared(s, a, k))
            && forall|a: int, b: int| 0 <= a < b < k ==> !same_declared(s, a, b),
    decreases n,
{
    if n > 0 {
        lemma_first_duplicate(s, n - 1);
        if first_duplicate(s, n - 1) is None {
            match declared_name(s[n - 1].1) {
                Some(name) => {
                    lemma_first_definer(s, name, n - 1);
                    match first_definer(s, name, n - 1) {
                        Some(j) => assert(same_declared(s, j, n - 1)),
                        None => {
                            assert forall|a: int, b: int| 0 <= a < b < n implies !same_declared(s, a, b) by {
                                if b == n - 1 {
                                    assert(declared_name(s[a].1) != Some(name));
                                }
                            }
                        },
                    }
                },
                None => {
                    assert forall|a: int, b: int| 0 <= a < b < n implies !same_declared(s, a, b) by {
                        if b == n - 1 && same_declared(s, a, b) {
                            assert(declared_name(s[b].1) is None);
                        }
                    }
                },
            }
        }
    }
}

/// Collecting the standard library fails exactly when two of its items
/// declare one name, and then reports the earliest item that repeats a name
/// declared before it.
pub proof fn law_stdlib_names_unique(s: Seq<(String, Item)>)
    ensures
        first_duplicate(s, s.len() as int) is None <==> forall|a: int, b: int| 0 <= a < b < s.len() ==> !same_declared(
            s,
            a,
            b,
        ),
        first_duplicate(s, s.len() as int) matches Some(k) ==> 0 <= k < s.len() && (exists|a: int|
            0 <= a < k && same_declared(s, a, k)) && forall|a: int, b: int| 0 <= a < b < k ==> !same_declared(s, a, b),
{
    lemma_first_duplicate(s, s.len() as int);
}

} // verus!
