use vstd::prelude::*;

use crate::config::{get_problematic_types, problematic_fragments, texts};
use crate::model::TypeExpr;
use crate::text::{contains_chars, contains_seq, strip_spaces, strip_spaces_of};

verus! {

/// With spaces removed from both, one of `frags` occurs in `text`.
pub open spec fn text_is_problematic(text: Seq<char>, frags: Seq<Seq<char>>) -> bool {
    exists|j: int|
        0 <= j < frags.len() && #[trigger] contains_seq(strip_spaces(text), strip_spaces(frags[j]))
}

/// The text of `t`, or of a type nested in it at any depth, holds one of `frags`.
pub open spec fn type_is_problematic(t: TypeExpr, frags: Seq<Seq<char>>) -> bool
    decreases t, t.args.len() + 1,
{
    text_is_problematic(t.text@, frags) || args_are_problematic(t, frags, t.args.len() as int)
}

/// One of the first `n` types nested directly in `t` is problematic.
pub open spec fn args_are_problematic(t: TypeExpr, frags: Seq<Seq<char>>, n: int) -> bool
    decreases t, n,
{
    if n <= 0 || n > t.args.len() {
        false
    } else {
        type_is_problematic(t.args[n - 1], frags) || args_are_problematic(t, frags, n - 1)
    }
}

/// One of the field types `fs` is problematic.
pub open spec fn fields_are_problematic(fs: Seq<TypeExpr>, frags: Seq<Seq<char>>) -> bool {
    exists|i: int| 0 <= i < fs.len() && #[trigger] type_is_problematic(fs[i], frags)
}

/// Walks field types and records whether one of them is problematic.
pub struct FieldTypeChecker {
    pub has_problematic_type: bool,
    pub problematic_types: Vec<String>,
}

impl FieldTypeChecker {
    /// A checker over the fixed fragments that has seen nothing yet.
    pub fn new() -> (r: Self)
        ensures
            !r.has_problematic_type,
            texts(r.problematic_types@) == problematic_fragments(),
    {
        FieldTypeChecker { has_problematic_type: false, problematic_types: get_problematic_types() }
    }

    /// Whether one of `fields` is problematic for the fixed fragments.
    pub fn check_fields(fields: &Vec<TypeExpr>) -> (r: bool)
        ensures
            r == fields_are_problematic(fields@, problematic_fragments()),
    {
        let mut checker = Self::new();
        let mut i: usize = 0;
        while i < fields.len()
            invariant
                i <= fields.len(),
                texts(checker.problematic_types@) == problematic_fragments(),
                checker.has_problematic_type == exists|k: int|
                    0 <= k < i && #[trigger] type_is_problematic(
                        fields@[k],
                        problematic_fragments(),
                    ),
            decreases fields.len() - i,
        {
            checker.visit_type(&fields[i]);
            i = i + 1;
        }
        checker.has_problematic_type
    }

    /// Records whether `ty` is problematic.
    pub fn visit_type(&mut self, ty: &TypeExpr)
        ensures
            final(self).problematic_types == old(self).problematic_types,
            final(self).has_problematic_type == (old(self).has_problematic_type
                || type_is_problematic(*ty, texts(old(self).problematic_types@))),
        decreases *ty,
    {
        let ghost frags = texts(self.problematic_types@);
        let type_text = strip_spaces_of(ty.text.as_str());
        let mut i: usize = 0;
        while i < self.problematic_types.len()
            invariant
                *self == *old(self),
                frags == texts(self.problematic_types@),
                i <= self.problematic_types.len(),
                type_text@ == strip_spaces(ty.text@),
                forall|j: int|
                    0 <= j < i ==> !#[trigger] contains_seq(
                        strip_spaces(ty.text@),
                        strip_spaces(frags[j]),
                    ),
            decreases self.problematic_types.len() - i,
        {
            let fragment = strip_spaces_of(self.problematic_types[i].as_str());
            if contains_chars(&type_text, &fragment) {
                assert(frags[i as int] == self.problematic_types@[i as int]@);
                assert(text_is_problematic(ty.text@, frags));
                self.has_problematic_type = true;
                return;
            }
            i = i + 1;
        }
        assert(!text_is_problematic(ty.text@, frags));
        let mut k: usize = 0;
        while k < ty.args.len()
            invariant
                k <= ty.args.len(),
                !text_is_problematic(ty.text@, frags),
                frags == texts(self.problematic_types@),
                self.problematic_types == old(self).problematic_types,
                self.has_problematic_type == (old(self).has_problematic_type
                    || args_are_problematic(*ty, frags, k as int)),
            decreases ty.args.len() - k,
        {
            self.visit_type(&ty.args[k]);
            k = k + 1;
        }
    }
}

} // verus!
