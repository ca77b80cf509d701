//! The layers that a design source file declares.
//!
//! A source file lists metafields. Those in the namespace `layer` name the
//! layers of the design, in the order of the file. A template that is
//! rendered with a source may only use text layers that the source names.

use vstd::prelude::*;
use vstd::string::{StrSliceExecFns, StringExecFns};
use crate::resolver::{first_named, first_named_before, lemma_first_named_stays};

verus! {

/// One metafield of a source file.
#[derive(Clone, Debug, PartialEq, Eq)]
pub struct DesignMetafield {
    pub namespace: String,
    pub value: String,
}

/// The values of the metafields in the namespace `layer`, in order.
pub open spec fn layer_values(fields: Seq<DesignMetafield>) -> Seq<Seq<char>>
    decreases fields.len(),
{
    if fields.len() == 0 {
        Seq::empty()
    } else if fields.last().namespace@ == "layer"@ {
        layer_values(fields.drop_last()).push(fields.last().value@)
    } else {
        layer_values(fields.drop_last())
    }
}

/// The layer names of a source file.
pub struct AiData {
    layer_names: Vec<String>,
}

impl View for AiData {
    type V = Seq<Seq<char>>;

    /// The layer names, in the order of the file.
    closed spec fn view(&self) -> Seq<Seq<char>> {
        Seq::new(self.layer_names@.len(), |i: int| self.layer_names@[i]@)
    }
}

/// Whether `text` ends with `suffix`.
pub open spec fn ends_with(text: Seq<char>, suffix: Seq<char>) -> bool {
    &&& suffix.len() <= text.len()
    &&& text.subrange(text.len() - suffix.len(), text.len() as int) == suffix
}

/// Whether the path names a source file of the supported kind: whether it
/// ends with `.ai`.
pub open spec fn is_ai_path(path: Seq<char>) -> bool {
    ends_with(path, ".ai"@)
}

/// See [`ends_with`].
pub fn has_suffix(text: &str, suffix: &str) -> (found: bool)
    ensures
        found == ends_with(text@, suffix@),
{
    let n = text.unicode_len();
    let m = suffix.unicode_len();
    if m > n {
        return false;
    }
    let ghost tail = text@.subrange(n - m, n as int);
    let mut i: usize = 0;
    while i < m
        invariant
            i <= m <= n,
            n == text@.len(),
            m == suffix@.len(),
            tail == text@.subrange(n - m, n as int),
            forall|j: int| 0 <= j < i ==> tail[j] == suffix@[j],
        decreases m - i,
    {
        if text.get_char(n - m + i) != suffix.get_char(i) {
            proof {
                assert(tail[i as int] != suffix@[i as int]);
            }
            return false;
        }
        i = i + 1;
    }
    proof {
        assert(tail =~= suffix@);
    }
    true
}

/// See [`is_ai_path`].
pub fn is_ai_source(path: &str) -> (supported: bool)
    ensures
        supported == is_ai_path(path@),
{
    has_suffix(path, ".ai")
}

impl AiData {
    /// The layers that the metafields declare: the value of each metafield
    /// in the namespace `layer`, in order.
    pub fn new(metafields: &Vec<DesignMetafield>) -> (data: AiData)
        ensures
            data@ == layer_values(metafields@),
    {
        let tag = String::from_str("layer");
        let mut layer_names: Vec<String> = Vec::new();
        let mut i: usize = 0;
        while i < metafields.len()
            invariant
                i <= metafields.len(),
                tag@ == "layer"@,
                Seq::new(layer_names@.len(), |k: int| layer_names@[k]@) == layer_values(
                    metafields@.take(i as int),
                ),
            decreases metafields.len() - i,
        {
            let ghost kept = Seq::new(layer_names@.len(), |k: int| layer_names@[k]@);
            proof {
                assert(metafields@.take(i + 1).drop_last() =~= metafields@.take(i as int));
                assert(metafields@.take(i + 1).last() == metafields@[i as int]);
            }
            if metafields[i].namespace == tag {
                layer_names.push(metafields[i].value.clone());
                proof {
                    assert(Seq::new(layer_names@.len(), |k: int| layer_names@[k]@) =~= kept.push(
                        metafields@[i as int].value@,
                    ));
                }
            }
            i = i + 1;
        }
        proof {
            assert(metafields@.take(metafields.len() as int) =~= metafields@);
        }
        AiData { layer_names }
    }

    /// How many layers the source names.
    pub fn layer_count(&self) -> (count: usize)
        ensures
            count == self@.len(),
    {
        self.layer_names.len()
    }

    /// Index of the first layer of the source that is called `name`.
    pub fn get_layer_by_name(&self, name: &str) -> (found: Option<usize>)
        ensures
            match found {
                Some(k) => first_named(self@, name@) == Some(k as int) && k < self@.len(),
                None => first_named(self@, name@) is None,
            },
    {
        let wanted = String::from_str(name);
        let mut i: usize = 0;
        while i < self.layer_names.len()
            invariant
                i <= self.layer_names.len(),
                wanted@ == name@,
                first_named_before(self@, name@, i as int) is None,
            decreases self.layer_names.len() - i,
        {
            if self.layer_names[i] == wanted {
                proof {
                    assert(self@[i as int] == name@);
                    lemma_first_named_stays(self@, name@, i + 1, self@.len() as int);
                }
                return Some(i);
            }
            i = i + 1;
        }
        None
    }
}

/// What a layer of a template is made of.
#[derive(Clone, Copy, Debug, PartialEq, Eq)]
pub enum LayerKind {
    Text,
    Image,
}

/// A layer of a template, as far as the source is concerned.
#[derive(Clone, Debug, PartialEq, Eq)]
pub struct NamedLayer {
    pub kind: LayerKind,
    pub name: String,
}

/// Whether the source has what layer `i` needs: a text layer needs a layer
/// of its name in the source, an image layer needs nothing.
pub open spec fn covered(source: Seq<Seq<char>>, layers: Seq<NamedLayer>, i: int) -> bool {
    layers[i].kind == LayerKind::Text ==> first_named(source, layers[i].name@) is Some
}

impl AiData {
    /// Index of the first layer that the source does not cover, and `None`
    /// where it covers them all.
    pub fn first_uncovered(&self, layers: &Vec<NamedLayer>) -> (missing: Option<usize>)
        ensures
            match missing {
                Some(k) => {
                    &&& k < layers.len()
                    &&& !covered(self@, layers@, k as int)
                    &&& forall|j: int| 0 <= j < k ==> covered(self@, layers@, j)
                },
                None => forall|j: int| 0 <= j < layers.len() ==> covered(self@, layers@, j),
            },
    {
        let mut i: usize = 0;
        while i < layers.len()
            invariant
                i <= layers.len(),
                forall|j: int| 0 <= j < i ==> covered(self@, layers@, j),
            decreases layers.len() - i,
        {
            match layers[i].kind {
                LayerKind::Text => {
                    if self.get_layer_by_name(layers[i].name.as_str()).is_none() {
                        return Some(i);
                    }
                },
                LayerKind::Image => {},
            }
            i = i + 1;
        }
        None
    }
}

} // verus!
