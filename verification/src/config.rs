//! The agent's configuration as plain data.
//!
//! Configuration is loaded once at process start by the surrounding program
//! and handed in as these types; it is read-only afterwards. The image
//! mapping must have unique keys — [`Registry::validate`] decides that, and a
//! configuration failing it is fatal at startup.

use vstd::prelude::*;

verus! {

/// Connection parameters for the chat homeserver.
pub struct Matrix {
    pub homeserver: String,
    pub username: String,
    pub password: String,
}

/// The upstream and downstream references of one configured image key.
pub struct ImageConfig {
    pub upstream: String,
    pub downstream: String,
}

/// The mathematical value of an [`ImageConfig`].
pub ghost struct ImageRefs {
    pub upstream: Seq<char>,
    pub downstream: Seq<char>,
}

impl View for ImageConfig {
    type V = ImageRefs;

    open spec fn view(&self) -> ImageRefs {
        ImageRefs { upstream: self.upstream@, downstream: self.downstream@ }
    }
}

/// Registry configuration: the mapping from user-visible image keys to
/// configured image references, held as a list of entries.
pub struct Registry {
    pub username: Option<String>,
    pub images: Vec<(String, ImageConfig)>,
}

/// The map denoted by a list of image entries: later entries would win, but
/// a well-formed registry has no duplicate keys at all.
pub open spec fn images_map_of(entries: Seq<(String, ImageConfig)>) -> Map<Seq<char>, ImageRefs>
    decreases entries.len(),
{
    if entries.len() == 0 {
        Map::empty()
    } else {
        images_map_of(entries.drop_last()).insert(entries.last().0@, entries.last().1@)
    }
}

/// Whether the entries carry pairwise distinct keys.
pub open spec fn keys_unique(entries: Seq<(String, ImageConfig)>) -> bool {
    forall|p: int, q: int|
        0 <= p < q < entries.len() ==> entries[p].0@ != entries[q].0@
}

/// A key absent from every entry is absent from the denoted map.
proof fn lemma_map_of_absent(entries: Seq<(String, ImageConfig)>, k: Seq<char>)
    requires
        forall|j: int| 0 <= j < entries.len() ==> entries[j].0@ != k,
    ensures
        !images_map_of(entries).contains_key(k),
    decreases entries.len(),
{
    if entries.len() > 0 {
        lemma_map_of_absent(entries.drop_last(), k);
    }
}

/// Under unique keys, the entry at `i` is what the denoted map holds for its
/// key.
proof fn lemma_map_of_index(entries: Seq<(String, ImageConfig)>, i: int)
    requires
        0 <= i < entries.len(),
        keys_unique(entries),
    ensures
        images_map_of(entries).contains_key(entries[i].0@),
        images_map_of(entries)[entries[i].0@] == entries[i].1@,
    decreases entries.len(),
{
    if i < entries.len() - 1 {
        assert(keys_unique(entries.drop_last()));
        lemma_map_of_index(entries.drop_last(), i);
        assert(entries.last().0@ != entries[i].0@);
    }
}

/// Whether two strings hold the same characters.
fn string_eq(a: &String, b: &String) -> (r: bool)
    ensures
        r == (a@ == b@),
{
    *a == *b
}

impl Registry {
    /// Well-formedness: image keys are pairwise distinct.
    pub open spec fn wf(&self) -> bool {
        keys_unique(self.images@)
    }

    /// The image mapping as a map from key to configured references.
    pub open spec fn images_map(&self) -> Map<Seq<char>, ImageRefs> {
        images_map_of(self.images@)
    }

    /// Decide well-formedness: configurations with duplicate image keys are
    /// rejected at startup.
    pub fn validate(&self) -> (r: bool)
        ensures
            r == self.wf(),
    {
        let n = self.images.len();
        let mut i: usize = 0;
        while i < n
            invariant
                n == self.images@.len(),
                forall|p: int, q: int|
                    0 <= p < q < n && p < i ==> self.images@[p].0@ != self.images@[q].0@,
            decreases n - i,
        {
            let mut j: usize = i + 1;
            while j < n
                invariant
                    i < n,
                    n == self.images@.len(),
                    i < j,
                    forall|q: int| i < q < j ==> self.images@[i as int].0@ != self.images@[q].0@,
                decreases n - j,
            {
                if string_eq(&self.images[i].0, &self.images[j].0) {
                    assert(!keys_unique(self.images@));
                    return false;
                }
                j += 1;
            }
            i += 1;
        }
        true
    }

    /// Look an image key up in the mapping.
    pub fn lookup(&self, key: &String) -> (r: Option<&ImageConfig>)
        requires
            self.wf(),
        ensures
            match r {
                Some(ic) => self.images_map().contains_key(key@) && ic@ == self.images_map()[key@],
                None => !self.images_map().contains_key(key@),
            },
    {
        let n = self.images.len();
        let mut i: usize = 0;
        while i < n
            invariant
                self.wf(),
                n == self.images@.len(),
                forall|j: int| 0 <= j < i ==> self.images@[j].0@ != key@,
            decreases n - i,
        {
            if string_eq(&self.images[i].0, key) {
                proof {
                    lemma_map_of_index(self.images@, i as int);
                }
                return Some(&self.images[i].1);
            }
            i += 1;
        }
        proof {
            lemma_map_of_absent(self.images@, key@);
        }
        None
    }
}

/// The whole configuration the agent starts with.
pub struct Config {
    pub matrix: Matrix,
    pub registry: Registry,
    pub store_path: Option<String>,
}

} // verus!
