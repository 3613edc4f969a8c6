//! Small helpers: the login name as the remote source wants it, and the
//! lookup of modules by their id.

use vstd::prelude::*;
use vstd::hash_map::StringHashMap;
use vstd::string::StringExecFns;
use vstd::string::StrSliceExecFns;
use crate::module::Module;

verus! {

/// The lowercase form of a text, as `str::to_lowercase` gives it.
pub uninterp spec fn lowercase(s: Seq<char>) -> Seq<char>;

/// The domain that every login name starts with, with its backslash.
pub open spec fn domain_prefix() -> Seq<char> {
    seq!['n', 'u', 's', 's', 't', 'u', '\\']
}

/// A lowercase name with the domain in front, unless it is there already.
pub open spec fn domain_name(lowered: Seq<char>) -> Seq<char> {
    if domain_prefix().is_prefix_of(lowered) {
        lowered
    } else {
        domain_prefix() + lowered
    }
}

/// Calls `str::to_lowercase`, which maps each character to its lowercase
/// equivalent by the tables of Unicode. The result depends on the text alone
/// and is named `lowercase`; nothing more is claimed of it.
#[verifier::external_body]
fn to_lowercase(s: &str) -> (lowered: String)
    ensures
        lowered@ == lowercase(s@),
{
    s.to_lowercase()
}

/// Tests whether `s` starts with the domain.
fn starts_with_domain(s: &str) -> (r: bool)
    ensures
        r == domain_prefix().is_prefix_of(s@),
{
    let domain = "nusstu\\";
    proof {
        reveal_strlit("nusstu\\");
        assert(domain@ =~= domain_prefix());
    }
    if s.unicode_len() < 7 {
        return false;
    }
    let mut i: usize = 0;
    while i < 7
        invariant
            i <= 7,
            s@.len() >= 7,
            domain@ == domain_prefix(),
            forall|k: int| 0 <= k < i ==> s@[k] == domain_prefix()[k],
        decreases 7 - i,
    {
        if s.get_char(i) != domain.get_char(i) {
            assert(s@.subrange(0, 7)[i as int] != domain_prefix()[i as int]);
            return false;
        }
        i += 1;
    }
    assert(s@.subrange(0, 7) =~= domain_prefix());
    true
}

/// Puts the domain in front of a lowercase login name, unless it is there
/// already.
pub fn with_domain(lowered: String) -> (name: String)
    ensures
        name@ == domain_name(lowered@),
{
    if starts_with_domain(lowered.as_str()) {
        lowered
    } else {
        proof {
            reveal_strlit("nusstu\\");
            assert("nusstu\\"@ =~= domain_prefix());
        }
        String::from_str("nusstu\\").concat(lowered.as_str())
    }
}

/// The login name as the remote source wants it: in lowercase and with the
/// domain in front.
pub fn clean_username(username: &str) -> (name: String)
    ensures
        name@ == domain_name(lowercase(username@)),
{
    with_domain(to_lowercase(username))
}

/// The lookup of modules by their id.
pub type ModulesMap<M> = StringHashMap<Module<M>>;

/// Entry `i` is the last module of `modules` with its id.
pub open spec fn is_last_with_id<M>(modules: Seq<Module<M>>, i: int) -> bool {
    &&& 0 <= i < modules.len()
    &&& forall|j: int| i < j < modules.len() ==> (#[trigger] modules[j]).id@ != modules[i].id@
}

/// Some module of `modules` has the id `id`.
pub open spec fn has_id<M>(modules: Seq<Module<M>>, id: Seq<char>) -> bool {
    exists|i: int| 0 <= i < modules.len() && (#[trigger] modules[i]).id@ == id
}

/// `map` looks up the modules of `modules` by id: it knows the ids that occur
/// and no others, and holds for each a copy of the last module with that id.
pub open spec fn is_modules_map<M: Clone>(
    modules: Seq<Module<M>>,
    map: Map<Seq<char>, Module<M>>,
) -> bool {
    &&& forall|id: Seq<char>| #[trigger] map.contains_key(id) <==> has_id(modules, id)
    &&& forall|i: int|
        #[trigger] is_last_with_id(modules, i) ==> map.contains_key(modules[i].id@)
            && map[modules[i].id@].copy_of(&modules[i])
}

/// Builds the lookup of `modules` by id.
pub fn construct_modules_map<M: Clone>(modules: &Vec<Module<M>>) -> (map: ModulesMap<M>)
    ensures
        is_modules_map(modules@, map@),
{
    let mut map: ModulesMap<M> = StringHashMap::new();
    let n = modules.len();
    let mut i: usize = 0;
    while i < n
        invariant
            i <= n,
            n == modules.len(),
            is_modules_map(modules@.subrange(0, i as int), map@),
        decreases n - i,
    {
        let ghost before = modules@.subrange(0, i as int);
        let ghost after = modules@.subrange(0, i + 1);
        let ghost old_map = map@;
        let module = &modules[i];
        map.insert(module.id.clone(), module.clone());
        proof {
            let new_id = modules[i as int].id@;
            assert(after[i as int] == modules[i as int]);
            assert forall|id: Seq<char>| #[trigger] map@.contains_key(id) <==> has_id(
                after,
                id,
            ) by {
                if has_id(before, id) {
                    let k = choose|k: int| 0 <= k < before.len() && (#[trigger] before[k]).id@ == id;
                    assert(after[k].id@ == id);
                }
                if has_id(after, id) && id != new_id {
                    let k = choose|k: int| 0 <= k < after.len() && (#[trigger] after[k]).id@ == id;
                    assert(before[k].id@ == id);
                }
            }
            assert forall|k: int| #[trigger] is_last_with_id(after, k) implies map@.contains_key(
                after[k].id@,
            ) && map@[after[k].id@].copy_of(&after[k]) by {
                if k < i {
                    assert(after[i as int].id@ != after[k].id@);
                    assert(before[k] == after[k]);
                    assert forall|j: int| k < j < before.len() implies (#[trigger] before[j]).id@
                        != before[k].id@ by {
                        assert(after[j] == before[j]);
                    }
                    assert(is_last_with_id(before, k));
                }
            }
        }
        i += 1;
    }
    assert(modules@.subrange(0, n as int) =~= modules@);
    map
}

} // verus!
