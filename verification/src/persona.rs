//! Personas: the system prompt each one composes, and the store's choices
//! that do not touch the disk (which persona is active, in which order they
//! are listed, which ones are bundled presets). Reading and writing the
//! persona files is done by the application.
use vstd::prelude::*;

use std::path::PathBuf;

use crate::stable_order::{lemma_insert_keeps_order, lists_positions, ordered_by};
use crate::text::{chars_equal, chars_of, push_all, push_str, string_from_chars, trim_chars, trimmed};

verus! {

/// A personality profile for the assistant.
#[derive(Clone, Debug)]
pub struct Persona {
    pub id: String,
    pub name: String,
    pub description: String,
    pub system_prompt: String,
    /// Which avatar sprite sheet this persona uses.
    pub sprite_sheet: Option<String>,
    /// True for personas that shipped as bundled presets.
    pub is_builtin: bool,
    /// The love meter: unbounded, moved by +1/-1 per liked/disliked message.
    pub love: i32,
    /// What the persona responds positively to (free text; may be empty).
    pub likes: String,
    /// What the persona responds negatively to (free text; may be empty).
    pub dislikes: String,
    /// A short sample of how this persona talks, shown to the model as a
    /// style reference. Empty means none.
    pub example_dialogue: String,
    /// What the persona says first, before the user sends anything.
    pub first_message: String,
}

/// The system prompt a persona sends: its own prompt, trimmed, followed by
/// its trimmed example dialogue as a style reference when there is one.
pub open spec fn composed_prompt(system_prompt: Seq<char>, example_dialogue: Seq<char>) -> Seq<
    char,
> {
    let base = trimmed(system_prompt);
    let example = trimmed(example_dialogue);
    if example.len() == 0 {
        base
    } else {
        base + "\n\nHere's an example of how you talk:\n"@ + example
            + "\n\nMatch this voice and style."@
    }
}

/// Different example dialogue (once trimmed) gives a different system prompt.
pub proof fn law_example_dialogue_shapes_prompt(system_prompt: Seq<char>, a: Seq<char>, b: Seq<char>)
    requires
        trimmed(a) != trimmed(b),
    ensures
        composed_prompt(system_prompt, a) != composed_prompt(system_prompt, b),
{
    let base = trimmed(system_prompt);
    let ta = trimmed(a);
    let tb = trimmed(b);
    let head = base + "\n\nHere's an example of how you talk:\n"@;
    let tail = "\n\nMatch this voice and style."@;
    if ta.len() == 0 && tb.len() == 0 {
        assert(ta =~= tb);
    }
    if ta.len() == 0 {
        assert(composed_prompt(system_prompt, b) == head + tb + tail);
        assert((head + tb + tail).len() > base.len());
    } else if tb.len() == 0 {
        assert(composed_prompt(system_prompt, a) == head + ta + tail);
        assert((head + ta + tail).len() > base.len());
    } else if ta.len() != tb.len() {
        assert(composed_prompt(system_prompt, a) == head + ta + tail);
        assert(composed_prompt(system_prompt, b) == head + tb + tail);
        assert((head + ta + tail).len() != (head + tb + tail).len());
    } else {
        if forall|k: int| 0 <= k < ta.len() ==> ta[k] == tb[k] {
            assert(ta =~= tb);
        }
        let k = choose|k: int| 0 <= k < ta.len() && ta[k] != tb[k];
        assert(composed_prompt(system_prompt, a) == head + ta + tail);
        assert(composed_prompt(system_prompt, b) == head + tb + tail);
        assert((head + ta + tail)[head.len() + k] == ta[k]);
        assert((head + tb + tail)[head.len() + k] == tb[k]);
    }
}

fn clone_opt(o: &Option<String>) -> (r: Option<String>)
    ensures
        r == *o,
{
    match o {
        Some(s) => Some(s.clone()),
        None => None,
    }
}

impl Persona {
    /// Builds the system prompt sent to the model.
    pub fn compose_system_prompt(&self) -> (r: String)
        ensures
            r@ == composed_prompt(self.system_prompt@, self.example_dialogue@),
    {
        let base = chars_of(self.system_prompt.as_str());
        let mut prompt = trim_chars(&base);
        let ex = chars_of(self.example_dialogue.as_str());
        let example = trim_chars(&ex);
        if example.len() > 0 {
            push_str(&mut prompt, "\n\nHere's an example of how you talk:\n");
            push_all(&mut prompt, &example);
            push_str(&mut prompt, "\n\nMatch this voice and style.");
        }
        string_from_chars(&prompt)
    }

    /// A field-by-field copy.
    pub fn duplicate(&self) -> (r: Persona)
        ensures
            r == *self,
    {
        Persona {
            id: self.id.clone(),
            name: self.name.clone(),
            description: self.description.clone(),
            system_prompt: self.system_prompt.clone(),
            sprite_sheet: clone_opt(&self.sprite_sheet),
            is_builtin: self.is_builtin,
            love: self.love,
            likes: self.likes.clone(),
            dislikes: self.dislikes.clone(),
            example_dialogue: self.example_dialogue.clone(),
            first_message: self.first_message.clone(),
        }
    }
}

// ---------------------------------------------------------------------------
// Ordering by name
// ---------------------------------------------------------------------------

/// `a` sorts before `b`: lexicographic order by code point, a proper prefix
/// first (the order of `String`'s `Ord`, since UTF-8 preserves code point
/// order).
pub open spec fn text_less(a: Seq<char>, b: Seq<char>) -> bool
    decreases a.len(),
{
    if a.len() == 0 {
        b.len() > 0
    } else if b.len() == 0 {
        false
    } else if a[0] != b[0] {
        (a[0] as int) < (b[0] as int)
    } else {
        text_less(a.drop_first(), b.drop_first())
    }
}

/// Names are ordered as `String`'s `Ord` orders them: `a` comes before `b`
/// exactly when `a` is a proper prefix of `b`, or at the first position
/// where they differ `a`'s character has the smaller code point, whatever
/// the lengths of the two names.
pub proof fn law_name_order_is_string_order(a: Seq<char>, b: Seq<char>)
    ensures
        text_less(a, b) <==> {
            ||| a.len() < b.len() && b.take(a.len() as int) == a
            ||| exists|i: int|
                0 <= i < a.len() && i < b.len() && a.take(i) == b.take(i) && (a[i] as int) < (
                #[trigger] b[i] as int)
        },
    decreases a.len(),
{
    if a.len() == 0 {
        assert(b.take(0) =~= a);
    } else if b.len() == 0 {
    } else if a[0] != b[0] {
        assert(a.take(0) =~= b.take(0));
        assert forall|i: int| 0 < i < a.len() && i < b.len() implies a.take(i) != b.take(i) by {
            assert(a.take(i)[0] == a[0]);
            assert(b.take(i)[0] == b[0]);
        }
        if a.len() < b.len() && b.take(a.len() as int) == a {
            assert(b.take(a.len() as int)[0] == b[0]);
        }
    } else {
        let a1 = a.drop_first();
        let b1 = b.drop_first();
        law_name_order_is_string_order(a1, b1);
        // the prefix case
        if a.len() < b.len() {
            if b.take(a.len() as int) == a {
                assert(b1.take(a1.len() as int) =~= a1) by {
                    assert forall|k: int| 0 <= k < a1.len() implies #[trigger] b1.take(a1.len() as int)[k]
                        == a1[k] by {
                        assert(b.take(a.len() as int)[k + 1] == a[k + 1]);
                    }
                }
            }
            if b1.take(a1.len() as int) == a1 {
                assert(b.take(a.len() as int) =~= a) by {
                    assert forall|k: int| 0 <= k < a.len() implies #[trigger] b.take(a.len() as int)[k]
                        == a[k] by {
                        if k > 0 {
                            assert(b1.take(a1.len() as int)[k - 1] == a1[k - 1]);
                        }
                    }
                }
            }
        }
        // the first-difference case
        if exists|i: int|
            0 <= i < a.len() && i < b.len() && a.take(i) == b.take(i) && (a[i] as int) < (
            #[trigger] b[i] as int) {
            let i = choose|i: int|
                0 <= i < a.len() && i < b.len() && a.take(i) == b.take(i) && (a[i] as int) < (
                #[trigger] b[i] as int);
            assert(i > 0);
            assert(a1.take(i - 1) =~= b1.take(i - 1)) by {
                assert forall|k: int| 0 <= k < i - 1 implies #[trigger] a1.take(i - 1)[k] == b1.take(i - 1)[k] by {
                    assert(a.take(i)[k + 1] == b.take(i)[k + 1]);
                }
            }
            assert(a1[i - 1] == a[i] && b1[i - 1] == b[i]);
        }
        if exists|j: int|
            0 <= j < a1.len() && j < b1.len() && a1.take(j) == b1.take(j) && (a1[j] as int) < (
            #[trigger] b1[j] as int) {
            let j = choose|j: int|
                0 <= j < a1.len() && j < b1.len() && a1.take(j) == b1.take(j) && (a1[j] as int) < (
                #[trigger] b1[j] as int);
            assert(a.take(j + 1) =~= b.take(j + 1)) by {
                assert forall|k: int| 0 <= k < j + 1 implies #[trigger] a.take(j + 1)[k] == b.take(j + 1)[k] by {
                    if k > 0 {
                        assert(a1.take(j)[k - 1] == b1.take(j)[k - 1]);
                    }
                }
            }
            assert(a[j + 1] == a1[j] && b[j + 1] == b1[j]);
        }
    }
}

proof fn lemma_text_less_irreflexive(a: Seq<char>)
    ensures
        !text_less(a, a),
    decreases a.len(),
{
    if a.len() > 0 {
        lemma_text_less_irreflexive(a.drop_first());
    }
}

proof fn lemma_text_less_transitive(a: Seq<char>, b: Seq<char>, c: Seq<char>)
    requires
        text_less(a, b),
        text_less(b, c),
    ensures
        text_less(a, c),
    decreases a.len(),
{
    if a.len() > 0 && b.len() > 0 && c.len() > 0 {
        if a[0] == b[0] && b[0] == c[0] {
            lemma_text_less_transitive(a.drop_first(), b.drop_first(), c.drop_first());
        }
    }
}

proof fn lemma_text_less_total(a: Seq<char>, b: Seq<char>)
    ensures
        text_less(a, b) || text_less(b, a) || a == b,
    decreases a.len(),
{
    if a.len() > 0 && b.len() > 0 {
        if a[0] == b[0] {
            lemma_text_less_total(a.drop_first(), b.drop_first());
            if a.drop_first() == b.drop_first() {
                assert(a =~= seq![a[0]] + a.drop_first());
                assert(b =~= seq![b[0]] + b.drop_first());
            }
        }
    } else if a.len() == 0 && b.len() == 0 {
        assert(a =~= b);
    }
}

/// Whether `a` sorts before `b`.
fn text_less_exec(a: &Vec<char>, b: &Vec<char>) -> (r: bool)
    ensures
        r == text_less(a@, b@),
{
    let mut i: usize = 0;
    assert(a@.skip(0) =~= a@);
    assert(b@.skip(0) =~= b@);
    while i < a.len() && i < b.len() && a[i] == b[i]
        invariant
            i <= a.len(),
            i <= b.len(),
            text_less(a@, b@) == text_less(a@.skip(i as int), b@.skip(i as int)),
        decreases a.len() - i,
    {
        proof {
            let sa = a@.skip(i as int);
            let sb = b@.skip(i as int);
            assert(sa.drop_first() =~= a@.skip(i + 1));
            assert(sb.drop_first() =~= b@.skip(i + 1));
        }
        i = i + 1;
    }
    if i < a.len() && i < b.len() {
        assert(a@.skip(i as int)[0] == a@[i as int]);
        assert(b@.skip(i as int)[0] == b@[i as int]);
        a[i] < b[i]
    } else {
        i == a.len() && i < b.len()
    }
}

/// Persona `a` (by position) is listed before persona `b`: by name, equal
/// names keeping their original order (a stable sort).
pub open spec fn listed_before(names: Seq<Seq<char>>, a: int, b: int) -> bool {
    text_less(names[a], names[b]) || (names[a] == names[b] && a < b)
}

/// `order` is the stable by-name order of all positions of `names`.
pub open spec fn is_name_order(names: Seq<Seq<char>>, order: Seq<usize>) -> bool {
    &&& order.len() == names.len()
    &&& forall|i: int| 0 <= i < order.len() ==> #[trigger] order[i] < names.len()
    &&& forall|i: int, j: int|
        0 <= i < j < order.len() ==> listed_before(names, #[trigger] order[i] as int, #[trigger] order[j] as int)
}

/// The names of a list of personas.
pub open spec fn names_of(personas: Seq<Persona>) -> Seq<Seq<char>> {
    personas.map_values(|p: Persona| p.name@)
}

proof fn lemma_listed_before_transitive(names: Seq<Seq<char>>, a: int, b: int, c: int)
    requires
        listed_before(names, a, b),
        listed_before(names, b, c),
    ensures
        listed_before(names, a, c),
{
    if text_less(names[a], names[b]) && text_less(names[b], names[c]) {
        lemma_text_less_transitive(names[a], names[b], names[c]);
    }
}

/// The stable by-name order of the positions of `names`.
fn name_order(names: &Vec<Vec<char>>) -> (order: Vec<usize>)
    ensures
        is_name_order(names@.map_values(|v: Vec<char>| v@), order@),
{
    let ghost ns = names@.map_values(|v: Vec<char>| v@);
    let ghost goes_first = |a: int, b: int| listed_before(ns, a, b);
    proof {
        assert forall|x: int, y: int, z: int| #[trigger] goes_first(x, y) && #[trigger] goes_first(y, z) implies goes_first(
            x,
            z,
        ) by {
            lemma_listed_before_transitive(ns, x, y, z);
        }
    }
    let n = names.len();
    let mut order: Vec<usize> = Vec::new();
    let mut i: usize = 0;
    while i < n
        invariant
            i <= n,
            n == names@.len(),
            ns == names@.map_values(|v: Vec<char>| v@),
            goes_first == (|a: int, b: int| listed_before(ns, a, b)),
            forall|x: int, y: int, z: int| #[trigger] goes_first(x, y) && #[trigger] goes_first(y, z) ==> goes_first(x, z),
            order@.len() == i,
            lists_positions(order@, i as int),
            ordered_by(order@, goes_first),
        decreases n - i,
    {
        let mut pos: usize = 0;
        while pos < order.len() && !text_less_exec(&names[i], &names[order[pos]])
            invariant
                pos <= order@.len(),
                n == names@.len(),
                i < n,
                ns == names@.map_values(|v: Vec<char>| v@),
                lists_positions(order@, i as int),
                forall|a: int| 0 <= a < pos ==> !text_less(ns[i as int], ns[#[trigger] order@[a] as int]),
            decreases order@.len() - pos,
        {
            assert(!text_less(ns[i as int], ns[order@[pos as int] as int]));
            pos = pos + 1;
        }
        proof {
            assert forall|a: int| 0 <= a < pos implies #[trigger] goes_first(order@[a] as int, i as int) by {
                let p = order@[a] as int;
                assert(p < i);
                assert(!text_less(ns[i as int], ns[p]));
                lemma_text_less_total(ns[i as int], ns[p]);
            }
            lemma_insert_keeps_order(order@, pos as int, i, goes_first);
        }
        order.insert(pos, i);
        i = i + 1;
    }
    proof {
        assert forall|a: int, b: int| 0 <= a < b < order@.len() implies listed_before(
            ns,
            #[trigger] order@[a] as int,
            #[trigger] order@[b] as int,
        ) by {
            assert(goes_first(order@[a] as int, order@[b] as int));
        }
    }
    order
}

/// The personas sorted by name, stably (as the persona list is shown).
pub fn sort_by_name(personas: &Vec<Persona>) -> (r: Vec<Persona>)
    ensures
        r@.len() == personas@.len(),
        exists|order: Seq<usize>|
            is_name_order(names_of(personas@), order) && forall|i: int|
                0 <= i < r@.len() ==> #[trigger] r@[i] == personas@[order[i] as int],
{
    let mut names: Vec<Vec<char>> = Vec::new();
    let mut i: usize = 0;
    while i < personas.len()
        invariant
            i <= personas@.len(),
            names@.len() == i,
            forall|k: int| 0 <= k < i ==> #[trigger] names@[k]@ == personas@[k].name@,
        decreases personas@.len() - i,
    {
        names.push(chars_of(personas[i].name.as_str()));
        i = i + 1;
    }
    assert(names@.map_values(|v: Vec<char>| v@) =~= names_of(personas@));
    let order = name_order(&names);
    let mut r: Vec<Persona> = Vec::new();
    let mut j: usize = 0;
    while j < order.len()
        invariant
            j <= order@.len(),
            order@.len() == personas@.len(),
            forall|k: int| 0 <= k < order@.len() ==> #[trigger] order@[k] < personas@.len(),
            r@.len() == j,
            forall|k: int| 0 <= k < j ==> #[trigger] r@[k] == personas@[order@[k] as int],
        decreases order@.len() - j,
    {
        r.push(personas[order[j]].duplicate());
        j = j + 1;
    }
    r
}

// ---------------------------------------------------------------------------
// The store
// ---------------------------------------------------------------------------

/// The first persona of `listed` whose id is `id`.
pub open spec fn find_by_id(listed: Seq<Persona>, id: Seq<char>) -> Option<Persona>
    decreases listed.len(),
{
    if listed.len() == 0 {
        None
    } else if listed[0].id@ == id {
        Some(listed[0])
    } else {
        find_by_id(listed.drop_first(), id)
    }
}

/// The persona that is active given the listed personas: the requested one
/// if it is listed, else the first listed, else none.
pub open spec fn resolved_persona(listed: Seq<Persona>, active_id: Option<Seq<char>>) -> Option<
    Persona,
> {
    let first = if listed.len() > 0 {
        Some(listed[0])
    } else {
        None
    };
    match active_id {
        Some(id) => match find_by_id(listed, id) {
            Some(p) => Some(p),
            None => first,
        },
        None => first,
    }
}

/// The view of an optional string slice.
pub open spec fn str_option_view(o: Option<&str>) -> Option<Seq<char>> {
    match o {
        Some(s) => Some(s@),
        None => None,
    }
}

/// The ids of the bundled presets.
pub open spec fn bundled_ids() -> Seq<Seq<char>> {
    seq!["friendly"@, "concise"@, "snarky"@]
}

/// The directory of persona files, one `<id>.json` per persona.
pub struct PersonaStore {
    dir: PathBuf,
}

impl PersonaStore {
    pub closed spec fn directory(&self) -> PathBuf {
        self.dir
    }

    /// The store kept in `dir`.
    pub fn at(dir: PathBuf) -> (r: PersonaStore)
        ensures
            r.directory() == dir,
    {
        PersonaStore { dir }
    }

    /// The directory of the persona files.
    pub fn dir(&self) -> (r: &PathBuf)
        ensures
            *r == self.directory(),
    {
        &self.dir
    }

    /// The file name of persona `id`: `<id>.json`.
    pub fn file_name(id: &str) -> (r: String)
        ensures
            r@ == id@ + ".json"@,
    {
        let mut v = chars_of(id);
        push_str(&mut v, ".json");
        string_from_chars(&v)
    }

    /// Whether a file with this extension is a persona file: only `json`
    /// files are read.
    pub fn is_persona_file(extension: Option<&str>) -> (r: bool)
        ensures
            r == (str_option_view(extension) == Some("json"@)),
    {
        match extension {
            Some(e) => {
                let ev = chars_of(e);
                let json = chars_of("json");
                chars_equal(&ev, &json)
            },
            None => false,
        }
    }

    /// The position of `id` among the bundled presets, if it is one.
    pub fn bundled_index(id: &str) -> (r: Option<usize>)
        ensures
            match r {
                Some(k) => k < bundled_ids().len() && bundled_ids()[k as int] == id@,
                None => !bundled_ids().contains(id@),
            },
    {
        let wanted = chars_of(id);
        let mut ids: Vec<Vec<char>> = Vec::new();
        ids.push(chars_of("friendly"));
        ids.push(chars_of("concise"));
        ids.push(chars_of("snarky"));
        assert(ids@.map_values(|v: Vec<char>| v@) =~= bundled_ids());
        let mut k: usize = 0;
        while k < ids.len()
            invariant
                k <= ids@.len(),
                wanted@ == id@,
                ids@.map_values(|v: Vec<char>| v@) == bundled_ids(),
                forall|m: int| 0 <= m < k ==> bundled_ids()[m] != id@,
            decreases ids@.len() - k,
        {
            assert(ids@[k as int]@ == bundled_ids()[k as int]);
            if chars_equal(&ids[k], &wanted) {
                return Some(k);
            }
            k = k + 1;
        }
        None
    }

    /// Resolves the persona that should actually be active, given the
    /// personas the store lists: the requested id if it still exists, else
    /// the first listed (alphabetically), else none.
    pub fn resolve_active(&self, listed: Vec<Persona>, active_id: Option<&str>) -> (r: Option<
        Persona,
    >)
        ensures
            r == resolved_persona(listed@, str_option_view(active_id)),
    {
        let ghost orig = listed@;
        let mut all = listed;
        assert(all@ == orig);
        if let Some(id) = active_id {
            let wanted = chars_of(id);
            let mut i: usize = 0;
            assert(all@.skip(0) =~= all@);
            while i < all.len()
                invariant
                    i <= all@.len(),
                    all@ == orig,
                    orig == listed@,
                    wanted@ == id@,
                    str_option_view(active_id) == Some(id@),
                    find_by_id(all@, id@) == find_by_id(all@.skip(i as int), id@),
                decreases all@.len() - i,
            {
                let ghost rest = all@.skip(i as int);
                assert(rest[0] == all@[i as int]);
                assert(rest.drop_first() =~= all@.skip(i + 1));
                let pid = chars_of(all[i].id.as_str());
                if chars_equal(&pid, &wanted) {
                    return Some(all.remove(i));
                }
                i = i + 1;
            }
            assert(all@.skip(i as int) =~= Seq::<Persona>::empty());
        }
        if all.len() > 0 {
            Some(all.remove(0))
        } else {
            None
        }
    }
}

} // verus!
