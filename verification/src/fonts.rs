//! Choosing the face that stands for the generic `sans-serif` family.

use vstd::prelude::*;

verus! {

/// Whether `c` is the letter `lo` (lower case) or `up` (its upper case).
pub open spec fn either(c: char, lo: char, up: char) -> bool {
    c == lo || c == up
}

/// Whether `name` contains `sans` in any letter case. (Only ASCII
/// letters lower-case to `s`, `a` and `n`, so this is the same as asking
/// whether the lower-cased name contains `sans`.)
pub open spec fn names_sans(name: Seq<char>) -> bool {
    exists|i: int|
        0 <= i && i + 4 <= name.len() && either(#[trigger] name[i], 's', 'S') && either(name[i + 1], 'a', 'A')
            && either(name[i + 2], 'n', 'N') && either(name[i + 3], 's', 'S')
}

/// The first family name of a face that contains `sans`, if any.
pub open spec fn sans_name(families: Seq<Seq<char>>) -> Option<Seq<char>>
    decreases families.len(),
{
    if families.len() == 0 {
        None
    } else if names_sans(families[0]) {
        Some(families[0])
    } else {
        sans_name(families.drop_first())
    }
}

/// Among the faces in order, the first family name containing `sans` of
/// the first face that has one, if any.
pub open spec fn sans_face(faces: Seq<Seq<Seq<char>>>) -> Option<Seq<char>>
    decreases faces.len(),
{
    if faces.len() == 0 {
        None
    } else {
        match sans_name(faces[0]) {
            Some(n) => Some(n),
            None => sans_face(faces.drop_first()),
        }
    }
}

/// Whether `name` contains `sans` in any letter case.
fn has_sans(name: &str) -> (r: bool)
    ensures
        r == names_sans(name@),
{
    let v = crate::text::chars_of(name);
    if v.len() < 4 {
        return false;
    }
    let mut i: usize = 0;
    while i <= v.len() - 4
        invariant
            v@ == name@,
            4 <= v@.len(),
            i <= v@.len() - 3,
            forall|k: int|
                0 <= k < i ==> !(either(#[trigger] v@[k], 's', 'S') && either(v@[k + 1], 'a', 'A') && either(
                    v@[k + 2],
                    'n',
                    'N',
                ) && either(v@[k + 3], 's', 'S')),
        decreases v@.len() - i,
    {
        if (v[i] == 's' || v[i] == 'S') && (v[i + 1] == 'a' || v[i + 1] == 'A') && (v[i + 2] == 'n' || v[i + 2] == 'N')
            && (v[i + 3] == 's' || v[i + 3] == 'S') {
            return true;
        }
        i = i + 1;
    }
    false
}

pub open spec fn faces_view(faces: Seq<Vec<String>>) -> Seq<Seq<Seq<char>>> {
    faces.map_values(|f: Vec<String>| f@.map_values(|n: String| n@))
}

/// The first family name of `face` that contains `sans`, if any.
fn face_sans_name(face: &Vec<String>) -> (r: Option<String>)
    ensures
        match r {
            Some(n) => sans_name(face@.map_values(|n: String| n@)) == Some(n@),
            None => sans_name(face@.map_values(|n: String| n@)) == None::<Seq<char>>,
        },
{
    let ghost fv = face@.map_values(|n: String| n@);
    let mut j: usize = 0;
    assert(fv.skip(0) =~= fv);
    while j < face.len()
        invariant
            j <= face@.len(),
            fv == face@.map_values(|n: String| n@),
            sans_name(fv) == sans_name(fv.skip(j as int)),
        decreases face@.len() - j,
    {
        let ghost t = fv.skip(j as int);
        assert(t[0] == fv[j as int]);
        assert(t.drop_first() =~= fv.skip(j + 1));
        if has_sans(face[j].as_str()) {
            return Some(face[j].clone());
        }
        j = j + 1;
    }
    assert(fv.skip(face@.len() as int) =~= Seq::<Seq<char>>::empty());
    None
}

/// The face to bind `sans-serif` to: among `faces`, each given by its
/// family names, the first family name containing `sans` (in any letter
/// case) of the first face that has one.
pub fn sans_serif_face(faces: &Vec<Vec<String>>) -> (r: Option<String>)
    ensures
        match r {
            Some(n) => sans_face(faces_view(faces@)) == Some(n@),
            None => sans_face(faces_view(faces@)) == None::<Seq<char>>,
        },
{
    let ghost fv = faces_view(faces@);
    let mut i: usize = 0;
    assert(fv.skip(0) =~= fv);
    while i < faces.len()
        invariant
            i <= faces@.len(),
            fv == faces_view(faces@),
            sans_face(fv) == sans_face(fv.skip(i as int)),
        decreases faces@.len() - i,
    {
        let ghost t = fv.skip(i as int);
        assert(t[0] == fv[i as int]);
        assert(t.drop_first() =~= fv.skip(i + 1));
        if let Some(n) = face_sans_name(&faces[i]) {
            return Some(n);
        }
        i = i + 1;
    }
    assert(fv.skip(faces@.len() as int) =~= Seq::<Seq<Seq<char>>>::empty());
    None
}

/// The family chosen for `sans-serif` names a sans face: it contains
/// `sans` in some letter case.
pub proof fn law_chosen_face_is_sans(faces: Seq<Seq<Seq<char>>>)
    ensures
        sans_face(faces) matches Some(n) ==> names_sans(n),
    decreases faces.len(),
{
    if faces.len() > 0 {
        lemma_sans_name_is_sans(faces[0]);
        law_chosen_face_is_sans(faces.drop_first());
    }
}

proof fn lemma_sans_name_is_sans(fams: Seq<Seq<char>>)
    ensures
        sans_name(fams) matches Some(n) ==> names_sans(n),
    decreases fams.len(),
{
    if fams.len() > 0 {
        lemma_sans_name_is_sans(fams.drop_first());
    }
}

} // verus!
