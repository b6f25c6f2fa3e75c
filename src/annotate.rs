use vstd::prelude::*;

use crate::config::{get_skip_list, problematic_fragments, skip_names, texts};
use crate::model::{Attr, Data, Decl, TypeExpr};
use crate::scan::{fields_are_problematic, FieldTypeChecker};
use crate::text::{chars_of, contains_chars, contains_seq, strip_spaces, strip_spaces_of};

verus! {

/// In the space-free list text `s`, an item starting at `i` or ending a path
/// there is `ToSchema`: it follows the start, a `,` or a `:`, and is followed
/// by the end or a `,`.
pub open spec fn names_to_schema_at(s: Seq<char>, i: int) -> bool {
    let n = "ToSchema"@.len();
    &&& 0 <= i
    &&& i + n <= s.len()
    &&& s.subrange(i, i + n) == "ToSchema"@
    &&& (i == 0 || s[i - 1] == ',' || s[i - 1] == ':')
    &&& (i + n == s.len() || s[i + n] == ',')
}

/// Some item of the derive list `t` is `ToSchema`, unqualified or at the end
/// of a path.
pub open spec fn lists_to_schema(t: Seq<char>) -> bool {
    exists|i: int| #[trigger] names_to_schema_at(strip_spaces(t), i)
}

/// `a` is a derive list that names the schema derive: qualified, in the
/// spelling that token rendering gives or in the compact one, or unqualified.
pub open spec fn is_schema_derive(a: Attr) -> bool {
    match a {
        Attr::Derive { list: Some(t) } => contains_seq(t@, "utoipa :: ToSchema"@) || contains_seq(
            t@,
            "utoipa::ToSchema"@,
        ) || lists_to_schema(t@),
        _ => false,
    }
}

/// One of `attrs` names the schema derive.
pub open spec fn has_schema_derive(attrs: Seq<Attr>) -> bool {
    exists|i: int| 0 <= i < attrs.len() && #[trigger] is_schema_derive(attrs[i])
}

/// The path of `a` is `derive`.
pub open spec fn is_derive(a: Attr) -> bool {
    a is Derive
}

/// One past the last derive attribute of `attrs`, or zero if there is none.
pub open spec fn insert_position(attrs: Seq<Attr>) -> nat
    decreases attrs.len(),
{
    if attrs.len() == 0 {
        0
    } else if is_derive(attrs.last()) {
        attrs.len()
    } else {
        insert_position(attrs.drop_last())
    }
}

/// `a` is the derive attribute that this pass adds.
pub open spec fn is_new_schema_attr(a: Attr) -> bool {
    match a {
        Attr::Derive { list: Some(t) } => t@ == "utoipa :: ToSchema"@,
        _ => false,
    }
}

/// Some field of the struct, or of some variant of the enum, is problematic.
pub open spec fn data_is_problematic(d: Data, frags: Seq<Seq<char>>) -> bool {
    match d {
        Data::Struct(fs) => fields_are_problematic(fs@, frags),
        Data::Enum(vs) => variants_are_problematic(vs@, frags),
    }
}

/// Some field of some variant is problematic.
pub open spec fn variants_are_problematic(vs: Seq<Vec<TypeExpr>>, frags: Seq<Seq<char>>) -> bool {
    exists|v: int| 0 <= v < vs.len() && #[trigger] fields_are_problematic(vs[v]@, frags)
}

/// The declaration gets the schema derive: its name is not skipped, it does not
/// carry the derive yet, and none of its field types is problematic.
pub open spec fn is_eligible(d: Decl) -> bool {
    &&& !skip_names().contains(d.name@)
    &&& !has_schema_derive(d.attrs@)
    &&& !data_is_problematic(d.data, problematic_fragments())
}

/// `new` is `old` with one attribute added at `pos`, which is the schema derive.
pub open spec fn inserted_at(old: Seq<Attr>, new: Seq<Attr>, pos: int) -> bool {
    &&& 0 <= pos <= old.len()
    &&& new.len() == old.len() + 1
    &&& new.subrange(0, pos) == old.subrange(0, pos)
    &&& new.subrange(pos + 1, new.len() as int) == old.subrange(pos, old.len() as int)
    &&& is_new_schema_attr(new[pos])
}

/// What one pass does to a declaration: an eligible one gets the schema derive
/// right after its last derive attribute (`edit` says where), any other one
/// is left as it was.
pub open spec fn annotated(old: Decl, new: Decl, edit: Option<usize>) -> bool {
    &&& new.name == old.name
    &&& new.data == old.data
    &&& if is_eligible(old) {
        &&& edit is Some
        &&& edit->0 as int == insert_position(old.attrs@) as int
        &&& inserted_at(old.attrs@, new.attrs@, insert_position(old.attrs@) as int)
    } else {
        &&& edit is None
        &&& new.attrs == old.attrs
    }
}

/// What one pass does to the declarations of a file, one by one.
pub open spec fn file_annotated(old: Seq<Decl>, new: Seq<Decl>, edits: Seq<Option<usize>>) -> bool {
    &&& new.len() == old.len()
    &&& edits.len() == old.len()
    &&& forall|k: int| 0 <= k < old.len() ==> annotated(#[trigger] old[k], new[k], edits[k])
}

/// Some declaration of `decls` is eligible.
pub open spec fn some_eligible(decls: Seq<Decl>) -> bool {
    exists|k: int| 0 <= k < decls.len() && #[trigger] is_eligible(decls[k])
}

/// The schema derive goes at a position within the attributes.
pub proof fn lemma_insert_position_bound(attrs: Seq<Attr>)
    ensures
        insert_position(attrs) <= attrs.len(),
    decreases attrs.len(),
{
    if attrs.len() > 0 {
        lemma_insert_position_bound(attrs.drop_last());
    }
}

/// Whether `hay` holds `needle` starting at `i`.
fn matches_at(hay: &Vec<char>, needle: &Vec<char>, i: usize) -> (r: bool)
    ensures
        r == (i + needle.len() <= hay.len() && hay@.subrange(i as int, i + needle.len())
            == needle@),
{
    if i > hay.len() || needle.len() > hay.len() - i {
        return false;
    }
    let mut j: usize = 0;
    while j < needle.len()
        invariant
            i + needle.len() <= hay.len(),
            j <= needle.len(),
            forall|m: int| 0 <= m < j ==> hay@[i + m] == needle@[m],
        decreases needle.len() - j,
    {
        if hay[i + j] != needle[j] {
            assert(hay@.subrange(i as int, i + needle.len())[j as int] != needle@[j as int]);
            return false;
        }
        j = j + 1;
    }
    assert(hay@.subrange(i as int, i + needle.len()) =~= needle@);
    true
}

/// Whether some item of the derive list `tokens` is `ToSchema`, unqualified
/// or at the end of a path.
fn list_names_to_schema(tokens: &str) -> (r: bool)
    ensures
        r == lists_to_schema(tokens@),
{
    let s = strip_spaces_of(tokens);
    let name = chars_of("ToSchema");
    let n = name.len();
    let mut i: usize = 0;
    while i < s.len()
        invariant
            s@ == strip_spaces(tokens@),
            name@ == "ToSchema"@,
            n == name@.len(),
            i <= s.len(),
            forall|k: int| 0 <= k < i ==> !#[trigger] names_to_schema_at(s@, k),
        decreases s.len() - i,
    {
        if matches_at(&s, &name, i) {
            let starts = i == 0 || s[i - 1] == ',' || s[i - 1] == ':';
            let ends = i + n == s.len() || s[i + n] == ',';
            if starts && ends {
                assert(names_to_schema_at(s@, i as int));
                return true;
            }
        }
        i = i + 1;
    }
    assert forall|k: int| !#[trigger] names_to_schema_at(s@, k) by {
        reveal_strlit("ToSchema");
    }
    false
}

/// Whether `attrs` already name the schema derive.
pub fn has_utoipa_derive(attrs: &Vec<Attr>) -> (r: bool)
    ensures
        r == has_schema_derive(attrs@),
{
    let spaced = chars_of("utoipa :: ToSchema");
    let compact = chars_of("utoipa::ToSchema");
    let mut i: usize = 0;
    while i < attrs.len()
        invariant
            i <= attrs.len(),
            spaced@ == "utoipa :: ToSchema"@,
            compact@ == "utoipa::ToSchema"@,
            forall|j: int| 0 <= j < i ==> !#[trigger] is_schema_derive(attrs@[j]),
        decreases attrs.len() - i,
    {
        match &attrs[i] {
            Attr::Derive { list: Some(tokens) } => {
                let cs = chars_of(tokens.as_str());
                if contains_chars(&cs, &spaced) || contains_chars(&cs, &compact)
                    || list_names_to_schema(tokens.as_str()) {
                    assert(is_schema_derive(attrs@[i as int]));
                    return true;
                }
            },
            _ => {},
        }
        i = i + 1;
    }
    false
}

/// Where the schema derive goes: one past the last derive attribute, or
/// zero if there is none.
pub fn find_derive_insert_position(attrs: &Vec<Attr>) -> (r: usize)
    ensures
        r == insert_position(attrs@),
{
    let mut last_derive_pos: usize = 0;
    let mut i: usize = 0;
    while i < attrs.len()
        invariant
            i <= attrs.len(),
            last_derive_pos == insert_position(attrs@.subrange(0, i as int)),
        decreases attrs.len() - i,
    {
        assert(attrs@.subrange(0, i + 1).drop_last() =~= attrs@.subrange(0, i as int));
        if let Attr::Derive { .. } = &attrs[i] {
            last_derive_pos = i + 1;
        }
        i = i + 1;
    }
    assert(attrs@.subrange(0, attrs.len() as int) =~= attrs@);
    last_derive_pos
}

/// Whether a field of `data` is problematic for the fixed fragments.
fn data_has_problematic_field(data: &Data) -> (r: bool)
    ensures
        r == data_is_problematic(*data, problematic_fragments()),
{
    match data {
        Data::Struct(fields) => FieldTypeChecker::check_fields(fields),
        Data::Enum(variants) => {
            let mut v: usize = 0;
            while v < variants.len()
                invariant
                    *data == Data::Enum(*variants),
                    v <= variants.len(),
                    forall|w: int|
                        0 <= w < v ==> !#[trigger] fields_are_problematic(
                            variants@[w]@,
                            problematic_fragments(),
                        ),
                decreases variants.len() - v,
            {
                if FieldTypeChecker::check_fields(&variants[v]) {
                    assert(fields_are_problematic(variants@[v as int]@, problematic_fragments()));
                    return true;
                }
                v = v + 1;
            }
            false
        },
    }
}

/// Adds the schema derive to the declarations that can take it.
pub struct UtoipaAnnotator {
    pub skip_list: Vec<String>,
    pub modified: bool,
}

impl UtoipaAnnotator {
    /// The skip list is the fixed one.
    pub open spec fn wf(&self) -> bool {
        texts(self.skip_list@) == skip_names()
    }

    /// An annotator with the fixed skip list that has changed nothing yet.
    pub fn new() -> (r: Self)
        ensures
            r.wf(),
            !r.modified,
    {
        UtoipaAnnotator { skip_list: get_skip_list(), modified: false }
    }

    /// Whether `decl` gets the schema derive.
    pub fn should_add_utoipa(&self, decl: &Decl) -> (r: bool)
        requires
            self.wf(),
        ensures
            r == is_eligible(*decl),
    {
        let mut i: usize = 0;
        while i < self.skip_list.len()
            invariant
                self.wf(),
                i <= self.skip_list.len(),
                forall|j: int| 0 <= j < i ==> skip_names()[j] != decl.name@,
            decreases self.skip_list.len() - i,
        {
            assert(skip_names()[i as int] == self.skip_list@[i as int]@);
            if self.skip_list[i] == decl.name {
                assert(skip_names().contains(decl.name@));
                return false;
            }
            i = i + 1;
        }
        if has_utoipa_derive(&decl.attrs) {
            return false;
        }
        !data_has_problematic_field(&decl.data)
    }

    /// Adds the schema derive to `decl` if it is eligible, right after its last
    /// derive attribute, and returns where it went.
    pub fn add_utoipa_derive(&mut self, decl: &mut Decl) -> (r: Option<usize>)
        requires
            old(self).wf(),
        ensures
            final(self).wf(),
            final(self).skip_list == old(self).skip_list,
            final(self).modified == (old(self).modified || is_eligible(*old(decl))),
            annotated(*old(decl), *final(decl), r),
    {
        if !self.should_add_utoipa(decl) {
            return None;
        }
        let new_derive = Attr::Derive { list: Some("utoipa :: ToSchema".to_owned()) };
        let insert_pos = find_derive_insert_position(&decl.attrs);
        proof {
            lemma_insert_position_bound(decl.attrs@);
        }
        decl.attrs.insert(insert_pos, new_derive);
        self.modified = true;
        assert(decl.attrs@.subrange(0, insert_pos as int) =~= old(decl).attrs@.subrange(
            0,
            insert_pos as int,
        ));
        assert(decl.attrs@.subrange(insert_pos + 1, decl.attrs@.len() as int)
            =~= old(decl).attrs@.subrange(insert_pos as int, old(decl).attrs@.len() as int));
        Some(insert_pos)
    }

    /// Runs over the declarations of a file in order and adds the schema derive
    /// to each one that can take it. Returns, for each declaration, where the
    /// derive went, if it was added.
    pub fn visit_file_mut(&mut self, decls: &mut Vec<Decl>) -> (r: Vec<Option<usize>>)
        requires
            old(self).wf(),
        ensures
            final(self).wf(),
            final(self).skip_list == old(self).skip_list,
            final(self).modified == (old(self).modified || some_eligible(old(decls)@)),
            file_annotated(old(decls)@, final(decls)@, r@),
    {
        let ghost orig = decls@;
        let mut rest: Vec<Decl> = Vec::new();
        std::mem::swap(decls, &mut rest);
        let mut edits: Vec<Option<usize>> = Vec::new();
        let n = rest.len();
        let mut i: usize = 0;
        while i < n
            invariant
                self.wf(),
                self.skip_list == old(self).skip_list,
                n == orig.len(),
                i <= n,
                rest@ == orig.subrange(i as int, n as int),
                self.modified == (old(self).modified || some_eligible(orig.subrange(0, i as int))),
                file_annotated(orig.subrange(0, i as int), decls@, edits@),
            decreases n - i,
        {
            let mut decl = rest.remove(0);
            assert(decl == orig[i as int]);
            let edit = self.add_utoipa_derive(&mut decl);
            decls.push(decl);
            edits.push(edit);
            proof {
                let prev = orig.subrange(0, i as int);
                let next = orig.subrange(0, i + 1);
                assert(next.drop_last() =~= prev);
                assert(rest@ =~= orig.subrange(i + 1, n as int));
                if some_eligible(prev) {
                    let k = choose|k: int| 0 <= k < prev.len() && #[trigger] is_eligible(prev[k]);
                    assert(is_eligible(next[k]));
                }
                if is_eligible(orig[i as int]) {
                    assert(is_eligible(next[i as int]));
                }
                if some_eligible(next) {
                    let k = choose|k: int| 0 <= k < next.len() && #[trigger] is_eligible(next[k]);
                    if k < i {
                        assert(is_eligible(prev[k]));
                    }
                }
                assert forall|k: int| 0 <= k < next.len() implies annotated(
                    #[trigger] next[k],
                    decls@[k],
                    edits@[k],
                ) by {
                    if k < i {
                        assert(next[k] == prev[k]);
                    }
                }
            }
            i = i + 1;
        }
        assert(orig.subrange(0, n as int) =~= orig);
        edits
    }
}

/// The derive this pass adds is recognised as the schema derive.
pub proof fn lemma_new_attr_is_schema_derive(a: Attr)
    requires
        is_new_schema_attr(a),
    ensures
        is_schema_derive(a),
{
    if let Attr::Derive { list: Some(t) } = a {
        assert(t@.subrange(0, 0 + "utoipa :: ToSchema"@.len() as int) =~= "utoipa :: ToSchema"@);
    }
}

/// After one pass no declaration of the file is eligible, so a second pass
/// adds nothing and changes no declaration.
pub proof fn lemma_second_pass_changes_nothing(
    d0: Seq<Decl>,
    d1: Seq<Decl>,
    e1: Seq<Option<usize>>,
    d2: Seq<Decl>,
    e2: Seq<Option<usize>>,
)
    requires
        file_annotated(d0, d1, e1),
        file_annotated(d1, d2, e2),
    ensures
        !some_eligible(d1),
        forall|k: int| 0 <= k < d1.len() ==> (#[trigger] e2[k]) is None && d2[k] == d1[k],
{
    assert forall|k: int| 0 <= k < d1.len() implies !#[trigger] is_eligible(d1[k]) by {
        assert(annotated(d0[k], d1[k], e1[k]));
        if is_eligible(d0[k]) {
            let p = insert_position(d0[k].attrs@) as int;
            lemma_new_attr_is_schema_derive(d1[k].attrs@[p]);
            assert(has_schema_derive(d1[k].attrs@));
        }
    }
    assert forall|k: int| 0 <= k < d1.len() implies (#[trigger] e2[k]) is None && d2[k] == d1[k] by {
        assert(annotated(d1[k], d2[k], e2[k]));
    }
}

/// A declaration whose name is on the skip list is left as it is.
pub proof fn lemma_skipped_name_is_kept(d: Decl, new: Decl, edit: Option<usize>)
    requires
        skip_names().contains(d.name@),
        annotated(d, new, edit),
    ensures
        edit is None,
        new == d,
{
}

/// A declaration with a problematic field type, in a struct or in any one
/// variant of an enum, is left whole as it is.
pub proof fn lemma_problematic_field_is_kept(d: Decl, new: Decl, edit: Option<usize>)
    requires
        data_is_problematic(d.data, problematic_fragments()),
        annotated(d, new, edit),
    ensures
        edit is None,
        new == d,
{
}

/// One problematic variant makes a whole enum ineligible.
pub proof fn lemma_problematic_variant_excludes_enum(d: Decl, v: int)
    requires
        d.data is Enum,
        0 <= v < d.data->Enum_0.len(),
        fields_are_problematic(d.data->Enum_0@[v]@, problematic_fragments()),
    ensures
        !is_eligible(d),
{
    assert(variants_are_problematic(d.data->Enum_0@, problematic_fragments()));
}

/// A declaration that already names the schema derive, qualified (with or
/// without spaces round `::`) or unqualified, keeps its attributes as they
/// are: the derive is not added twice.
pub proof fn lemma_existing_schema_derive_is_kept(d: Decl, new: Decl, edit: Option<usize>)
    requires
        has_schema_derive(d.attrs@),
        annotated(d, new, edit),
    ensures
        edit is None,
        new.attrs == d.attrs,
{
}

/// The insert position follows the last derive attribute: the attribute
/// before it is a derive (unless it is zero) and none after it is.
pub proof fn lemma_insert_position_follows_last_derive(attrs: Seq<Attr>)
    ensures
        insert_position(attrs) <= attrs.len(),
        insert_position(attrs) == 0 || is_derive(attrs[insert_position(attrs) - 1]),
        forall|j: int| insert_position(attrs) <= j < attrs.len() ==> !is_derive(#[trigger] attrs[j]),
    decreases attrs.len(),
{
    if attrs.len() > 0 && !is_derive(attrs.last()) {
        let rest = attrs.drop_last();
        lemma_insert_position_follows_last_derive(rest);
        assert forall|j: int| insert_position(attrs) <= j < attrs.len() implies !is_derive(
            #[trigger] attrs[j],
        ) by {
            if j < rest.len() {
                assert(attrs[j] == rest[j]);
            }
        }
    }
}

/// An added derive keeps every earlier attribute in place, in content and
/// order, and shifts the later ones by one.
pub proof fn lemma_insertion_keeps_attributes(d: Decl, new: Decl, pos: usize)
    requires
        annotated(d, new, Some(pos)),
    ensures
        pos as int == insert_position(d.attrs@) as int,
        new.attrs@.len() == d.attrs@.len() + 1,
        is_new_schema_attr(new.attrs@[pos as int]),
        forall|j: int| 0 <= j < pos ==> new.attrs@[j] == #[trigger] d.attrs@[j],
        forall|j: int| pos <= j < d.attrs@.len() ==> new.attrs@[j + 1] == #[trigger] d.attrs@[j],
{
    assert forall|j: int| 0 <= j < pos implies new.attrs@[j] == #[trigger] d.attrs@[j] by {
        assert(new.attrs@.subrange(0, pos as int)[j] == d.attrs@.subrange(0, pos as int)[j]);
    }
    assert forall|j: int| pos <= j < d.attrs@.len() implies new.attrs@[j + 1]
        == #[trigger] d.attrs@[j] by {
        assert(new.attrs@.subrange(pos + 1, new.attrs@.len() as int)[j - pos] == d.attrs@.subrange(
            pos as int,
            d.attrs@.len() as int,
        )[j - pos]);
    }
}

/// In a pass over a file exactly the eligible declarations get an edit; every
/// other declaration comes out equal to what went in.
pub proof fn lemma_only_eligible_declarations_change(
    old: Seq<Decl>,
    new: Seq<Decl>,
    edits: Seq<Option<usize>>,
)
    requires
        file_annotated(old, new, edits),
    ensures
        forall|k: int| 0 <= k < old.len() ==> ((#[trigger] edits[k]) is Some <==> is_eligible(old[k])),
        forall|k: int| 0 <= k < old.len() && !is_eligible(#[trigger] old[k]) ==> new[k] == old[k],
{
    assert forall|k: int| 0 <= k < old.len() implies ((#[trigger] edits[k]) is Some <==> is_eligible(old[k])) by {
        assert(annotated(old[k], new[k], edits[k]));
    }
    assert forall|k: int| 0 <= k < old.len() && !is_eligible(#[trigger] old[k]) implies new[k] == old[k] by {
        assert(annotated(old[k], new[k], edits[k]));
    }
}

} // verus!
