//! GLSL 3.30 core for macOS: shaders written in GLSL 1.20 style are rewritten so that
//! vertex attributes get explicit locations (shared by both stages), `varying` becomes
//! `out`/`in`, the fragment output is declared, and the texture lookups get their
//! 3.30 names.

use vstd::prelude::*;
use crate::shader_source::{chars_of, push_all, push_decimal, spec_decimal, vec_char_eq, contains_name};

verus! {

/// Text with every occurrence of `from` replaced by `to`, scanning from the left and
/// never replacing inside a replacement (what `str::replace` does for a non-empty
/// pattern).
pub open spec fn spec_replace(s: Seq<char>, from: Seq<char>, to: Seq<char>) -> Seq<char>
    decreases s.len(),
{
    if from.len() == 0 || s.len() == 0 {
        s
    } else if s.len() >= from.len() && s.take(from.len() as int) == from {
        to + spec_replace(s.skip(from.len() as int), from, to)
    } else {
        seq![s[0]] + spec_replace(s.skip(1), from, to)
    }
}

/// Whether `pat` occurs in `s` at `at`.
fn occurs_at(s: &Vec<char>, at: usize, pat: &Vec<char>) -> (r: bool)
    requires
        at <= s@.len(),
    ensures
        r == (s@.skip(at as int).len() >= pat@.len() && s@.skip(at as int).take(pat@.len() as int)
            == pat@),
{
    if s.len() - at < pat.len() {
        return false;
    }
    let mut i: usize = 0;
    while i < pat.len()
        invariant
            i <= pat@.len(),
            at + pat@.len() <= s@.len(),
            s@.len() == s.len(),
            forall|j: int| 0 <= j < i ==> s@[at + j] == pat@[j],
        decreases pat@.len() - i,
    {
        if s[at + i] != pat[i] {
            assert(s@.skip(at as int).take(pat@.len() as int)[i as int] != pat@[i as int]);
            return false;
        }
        i = i + 1;
    }
    assert(s@.skip(at as int).take(pat@.len() as int) =~= pat@);
    true
}

/// Replaces every occurrence of `from` by `to`, as `str::replace` does.
pub fn replace_all(s: &Vec<char>, from: &Vec<char>, to: &Vec<char>) -> (r: Vec<char>)
    requires
        from@.len() > 0,
    ensures
        r@ == spec_replace(s@, from@, to@),
{
    let mut out: Vec<char> = Vec::new();
    let mut i: usize = 0;
    assert(s@.skip(0) =~= s@);
    assert(out@ + spec_replace(s@, from@, to@) =~= spec_replace(s@, from@, to@));
    while i < s.len()
        invariant
            i <= s@.len(),
            from@.len() > 0,
            out@ + spec_replace(s@.skip(i as int), from@, to@) == spec_replace(s@, from@, to@),
        decreases s@.len() - i,
    {
        let ghost rest = s@.skip(i as int);
        if occurs_at(s, i, from) {
            assert(rest.skip(from@.len() as int) =~= s@.skip(i + from@.len()));
            push_all(&mut out, to);
            i = i + from.len();
        } else {
            assert(rest.skip(1) =~= s@.skip(i + 1));
            assert(rest[0] == s@[i as int]);
            out.push(s[i]);
            i = i + 1;
        }
        assert(out@ + spec_replace(s@.skip(i as int), from@, to@) == spec_replace(s@, from@, to@));
    }
    assert(s@.skip(i as int) =~= Seq::<char>::empty());
    assert(out@ + Seq::<char>::empty() =~= out@);
    out
}


/// The pattern of an attribute declaration whose name is read: `attribute`, an optional
/// precision, the type (group 1), the name (group 2), an optional array size, `;`, on a
/// line that is not a `//` comment.
pub const ATTRIBUTE_NAME_PATTERN: &'static str = r#"(?m)^(?!\s*//)\s*attribute\s+(?:(?:lowp|mediump|highp)\s+)?(\w+)\s+(\w+)(?:\s*\[.*?\])?\s*;"#;

/// The pattern of an attribute declaration that is rewritten: as above, with the array
/// size as group 3.
pub const ATTRIBUTE_DECL_PATTERN: &'static str = r#"(?m)^(?!\s*//)\s*attribute\s+(?:(?:lowp|mediump|highp)\s+)?(\w+)\s+(\w+)(\s*\[.*?\])?\s*;"#;

/// What `fancy_regex` finds for `pattern` in `text`: for each match in order, its
/// capture groups (group 0 is the whole match; a group that took no part is `None`).
/// `None` when the pattern does not compile or matching fails.
pub uninterp spec fn regex_capture_groups(pattern: Seq<char>, text: Seq<char>) -> Option<Seq<Seq<Option<Seq<char>>>>>;

/// The pieces of `text` between the matches of `pattern`, as `fancy_regex` splits it
/// (one more piece than matches). `None` when the pattern does not compile or matching
/// fails.
pub uninterp spec fn regex_split_pieces(pattern: Seq<char>, text: Seq<char>) -> Option<Seq<Seq<char>>>;

pub open spec fn spec_group_view(g: Option<Vec<char>>) -> Option<Seq<char>> {
    match g {
        Some(v) => Some(v@),
        None => None,
    }
}

pub open spec fn spec_captures_view(c: Seq<Vec<Option<Vec<char>>>>) -> Seq<Seq<Option<Seq<char>>>> {
    c.map_values(|m: Vec<Option<Vec<char>>>| m@.map_values(|g: Option<Vec<char>>| spec_group_view(g)))
}

pub open spec fn spec_pieces_view(p: Seq<Vec<char>>) -> Seq<Seq<char>> {
    p.map_values(|v: Vec<char>| v@)
}

/// Compiles `pattern` with `fancy_regex::Regex::new` and collects
/// `Regex::captures_iter` over `text`, each group as its characters. The contract
/// names the result; it stops at the first error, which gives `None`.
#[verifier::external_body]
fn regex_captures(pattern: &str, text: &Vec<char>) -> (r: Option<Vec<Vec<Option<Vec<char>>>>>)
    ensures
        (match r {
            Some(c) => regex_capture_groups(pattern@, text@) == Some(spec_captures_view(c@)),
            None => regex_capture_groups(pattern@, text@) is None,
        }),
{
    let text: String = text.iter().collect();
    let re = fancy_regex::Regex::new(pattern).ok()?;
    re.captures_iter(&text).map(|c| c.map(|c| c.iter().map(|g| g.map(|m| m.as_str().chars().collect())).collect())).collect::<Result<Vec<_>, _>>().ok()
}

/// Compiles `pattern` with `fancy_regex::Regex::new` and collects `Regex::split` over
/// `text`, each piece as its characters. The contract names the result; it stops at the
/// first error, which gives `None`.
#[verifier::external_body]
fn regex_split(pattern: &str, text: &Vec<char>) -> (r: Option<Vec<Vec<char>>>)
    ensures
        (match r {
            Some(p) => regex_split_pieces(pattern@, text@) == Some(spec_pieces_view(p@)),
            None => regex_split_pieces(pattern@, text@) is None,
        }),
{
    let text: String = text.iter().collect();
    let re = fancy_regex::Regex::new(pattern).ok()?;
    re.split(&text).map(|p| p.map(|p| p.chars().collect())).collect::<Result<Vec<_>, _>>().ok()
}

/// The attribute names read from the matches (group 2 of each), or `None` when a match
/// lacks that group.
pub open spec fn spec_attribute_names(caps: Seq<Seq<Option<Seq<char>>>>) -> Option<Seq<Seq<char>>>
    decreases caps.len(),
{
    if caps.len() == 0 {
        Some(Seq::empty())
    } else {
        match spec_attribute_names(caps.drop_last()) {
            Some(names) => if caps.last().len() > 2 && caps.last()[2] is Some {
                Some(names.push(caps.last()[2]->0))
            } else {
                None
            },
            None => None,
        }
    }
}

/// Reads the attribute name (group 2) of each match.
pub fn attribute_names(caps: &Vec<Vec<Option<Vec<char>>>>) -> (r: Option<Vec<Vec<char>>>)
    ensures
        (match r {
            Some(n) => spec_attribute_names(spec_captures_view(caps@)) == Some(spec_pieces_view(n@)),
            None => spec_attribute_names(spec_captures_view(caps@)) is None,
        }),
{
    let ghost cv = spec_captures_view(caps@);
    let mut names: Vec<Vec<char>> = Vec::new();
    let mut i: usize = 0;
    while i < caps.len()
        invariant
            i <= caps@.len(),
            cv == spec_captures_view(caps@),
            spec_attribute_names(cv.take(i as int)) == Some(spec_pieces_view(names@)),
        decreases caps@.len() - i,
    {
        assert(cv.take(i + 1).drop_last() =~= cv.take(i as int));
        assert(cv.take(i + 1).last() == cv[i as int]);
        let cap = &caps[i];
        assert(cv[i as int] == cap@.map_values(|g: Option<Vec<char>>| spec_group_view(g)));
        if cap.len() > 2 {
            match &cap[2] {
                Some(name) => {
                    let ghost prev = names@;
                    names.push(name.clone());
                    assert(spec_pieces_view(names@) =~= spec_pieces_view(prev).push(name@));
                },
                None => {
                    proof {
                        lemma_attribute_names_stop(cv, i as int);
                    }
                    return None;
                },
            }
        } else {
            proof {
                lemma_attribute_names_stop(cv, i as int);
            }
            return None;
        }
        i = i + 1;
    }
    assert(cv.take(i as int) =~= cv);
    Some(names)
}

proof fn lemma_attribute_names_stop(cv: Seq<Seq<Option<Seq<char>>>>, i: int)
    requires
        0 <= i < cv.len(),
        !(cv[i].len() > 2 && cv[i][2] is Some),
    ensures
        spec_attribute_names(cv) is None,
    decreases cv.len(),
{
    if i == cv.len() - 1 {
    } else {
        lemma_attribute_names_stop(cv.drop_last(), i);
    }
}

/// The names in the order they first occur, each once: the attribute locations, a
/// name's location being its index.
pub open spec fn spec_first_seen(names: Seq<Seq<char>>) -> Seq<Seq<char>>
    decreases names.len(),
{
    if names.len() == 0 {
        Seq::empty()
    } else {
        let prev = spec_first_seen(names.drop_last());
        if prev.contains(names.last()) {
            prev
        } else {
            prev.push(names.last())
        }
    }
}

/// The names in order of first occurrence, each once.
pub fn first_seen(names: &Vec<Vec<char>>) -> (r: Vec<Vec<char>>)
    ensures
        spec_pieces_view(r@) == spec_first_seen(spec_pieces_view(names@)),
{
    let ghost nv = spec_pieces_view(names@);
    let mut r: Vec<Vec<char>> = Vec::new();
    let mut i: usize = 0;
    while i < names.len()
        invariant
            i <= names@.len(),
            nv == spec_pieces_view(names@),
            spec_pieces_view(r@) == spec_first_seen(nv.take(i as int)),
        decreases names@.len() - i,
    {
        assert(nv.take(i + 1).drop_last() =~= nv.take(i as int));
        assert(nv.take(i + 1).last() == nv[i as int]);
        let name = &names[i];
        if !contains_name(&r, name) {
            let ghost prev = r@;
            r.push(name.clone());
            assert(spec_pieces_view(r@) =~= spec_pieces_view(prev).push(name@));
        }
        i = i + 1;
    }
    assert(nv.take(i as int) =~= nv);
    r
}

/// Each name occurs once in the location list, and a name has a location exactly when
/// some shader declares it.
pub proof fn lemma_first_seen(names: Seq<Seq<char>>)
    ensures
        spec_first_seen(names).no_duplicates(),
        forall|n: Seq<char>| spec_first_seen(names).contains(n) <==> names.contains(n),
    decreases names.len(),
{
    if names.len() > 0 {
        lemma_first_seen(names.drop_last());
        let prev = spec_first_seen(names.drop_last());
        assert forall|n: Seq<char>| spec_first_seen(names).contains(n) <==> names.contains(n) by {
            if names.contains(n) {
                let k = choose|k: int| 0 <= k < names.len() && names[k] == n;
                if k < names.len() - 1 {
                    assert(names.drop_last()[k] == n);
                }
            }
            if names.drop_last().contains(n) {
                let k = choose|k: int| 0 <= k < names.len() - 1 && names.drop_last()[k] == n;
                assert(names[k] == n);
            }
            if !prev.contains(names.last()) {
                if prev.push(names.last()).contains(n) {
                    let k = choose|k: int| 0 <= k < prev.len() + 1 && prev.push(names.last())[k] == n;
                    if k < prev.len() {
                        assert(prev[k] == n);
                    }
                }
                if prev.contains(n) {
                    let k = choose|k: int| 0 <= k < prev.len() && prev[k] == n;
                    assert(prev.push(names.last())[k] == n);
                }
                assert(prev.push(names.last())[prev.len() as int] == names.last());
            }
            assert(names[names.len() - 1] == names.last());
        }
    }
}

/// An attribute declared in either stage has a location below the number of
/// attributes, and two different attributes never share a location; both stages read
/// the same locations.
pub proof fn lemma_attribute_locations(names: Seq<Seq<char>>, a: Seq<char>, b: Seq<char>)
    requires
        names.contains(a),
        names.contains(b),
        a != b,
    ensures
        spec_location(spec_first_seen(names), a) < spec_first_seen(names).len(),
        spec_location(spec_first_seen(names), a) != spec_location(spec_first_seen(names), b),
{
    let locations = spec_first_seen(names);
    lemma_first_seen(names);
    locations.index_of_first_ensures(a);
    locations.index_of_first_ensures(b);
}

/// The location of an attribute: its first index in `locations`, 0 when absent.
pub open spec fn spec_location(locations: Seq<Seq<char>>, name: Seq<char>) -> nat {
    match locations.index_of_first(name) {
        Some(i) => i as nat,
        None => 0,
    }
}

/// The location of the attribute `name`.
pub fn location_of(locations: &Vec<Vec<char>>, name: &Vec<char>) -> (r: usize)
    ensures
        r == spec_location(spec_pieces_view(locations@), name@),
{
    let ghost lv = spec_pieces_view(locations@);
    let mut i: usize = 0;
    while i < locations.len()
        invariant
            i <= locations@.len(),
            lv == spec_pieces_view(locations@),
            forall|j: int| 0 <= j < i ==> lv[j] != name@,
        decreases locations@.len() - i,
    {
        if vec_char_eq(&locations[i], name) {
            proof {
                lv.index_of_first_ensures(name@);
                assert(lv[i as int] == name@);
                assert(lv.contains(name@));
                let k = lv.index_of_first(name@)->0;
                assert(!(k < i));
                assert(!(k > i));
            }
            return i;
        }
        i = i + 1;
    }
    proof {
        lv.index_of_first_ensures(name@);
        assert(!lv.contains(name@));
    }
    0
}

/// The declaration an attribute is rewritten to.
pub open spec fn spec_layout_decl(location: nat, ty: Seq<char>, name: Seq<char>, array: Seq<char>) -> Seq<char> {
    "layout (location = "@ + spec_decimal(location) + ") in "@ + ty + " "@ + name + array + ";"@
}

/// The rewritten declaration of one match: type (group 1), name (group 2) and array size
/// (group 3, empty when absent); `None` when the type or the name is missing.
pub open spec fn spec_rewritten_decl(cap: Seq<Option<Seq<char>>>, locations: Seq<Seq<char>>) -> Option<Seq<char>> {
    if cap.len() > 2 && cap[1] is Some && cap[2] is Some {
        let array = if cap.len() > 3 && cap[3] is Some {
            cap[3]->0
        } else {
            Seq::empty()
        };
        Some(spec_layout_decl(spec_location(locations, cap[2]->0), cap[1]->0, cap[2]->0, array))
    } else {
        None
    }
}

/// The first `k` pieces, each followed by the rewritten declaration of its match.
pub open spec fn spec_interleave(
    pieces: Seq<Seq<char>>,
    caps: Seq<Seq<Option<Seq<char>>>>,
    locations: Seq<Seq<char>>,
    k: nat,
) -> Option<Seq<char>>
    decreases k,
{
    if k == 0 {
        Some(Seq::empty())
    } else {
        match spec_interleave(pieces, caps, locations, (k - 1) as nat) {
            Some(t) => match spec_rewritten_decl(caps[k - 1], locations) {
                Some(d) => Some(t + pieces[k - 1] + d),
                None => None,
            },
            None => None,
        }
    }
}

/// The text with each match replaced by its rewritten declaration: the pieces between
/// the matches interleaved with the declarations. `None` when the pieces do not number
/// one more than the matches, or a match lacks its type or name.
pub open spec fn spec_rewrite(
    pieces: Seq<Seq<char>>,
    caps: Seq<Seq<Option<Seq<char>>>>,
    locations: Seq<Seq<char>>,
) -> Option<Seq<char>> {
    if pieces.len() != caps.len() + 1 {
        None
    } else {
        match spec_interleave(pieces, caps, locations, caps.len()) {
            Some(t) => Some(t + pieces.last()),
            None => None,
        }
    }
}

proof fn lemma_interleave_stays_none(
    pieces: Seq<Seq<char>>,
    caps: Seq<Seq<Option<Seq<char>>>>,
    locations: Seq<Seq<char>>,
    i: nat,
    k: nat,
)
    requires
        i <= k,
        spec_interleave(pieces, caps, locations, i) is None,
    ensures
        spec_interleave(pieces, caps, locations, k) is None,
    decreases k,
{
    if k > i {
        lemma_interleave_stays_none(pieces, caps, locations, i, (k - 1) as nat);
    }
}

/// Builds `layout (location = N) in TYPE NAME ARRAY;`.
fn layout_decl(location: usize, ty: &Vec<char>, name: &Vec<char>, array: &Vec<char>) -> (r: Vec<char>)
    ensures
        r@ == spec_layout_decl(location as nat, ty@, name@, array@),
{
    let mut r = chars_of("layout (location = ");
    push_decimal(location, &mut r);
    push_all(&mut r, &chars_of(") in "));
    push_all(&mut r, ty);
    push_all(&mut r, &chars_of(" "));
    push_all(&mut r, name);
    push_all(&mut r, array);
    push_all(&mut r, &chars_of(";"));
    r
}

/// Replaces each attribute declaration by one with an explicit location, given the
/// pieces of the text between the declarations and the declarations' capture groups.
pub fn rewrite_declarations(
    pieces: &Vec<Vec<char>>,
    caps: &Vec<Vec<Option<Vec<char>>>>,
    locations: &Vec<Vec<char>>,
) -> (r: Option<Vec<char>>)
    ensures
        (match r {
            Some(t) => spec_rewrite(spec_pieces_view(pieces@), spec_captures_view(caps@), spec_pieces_view(locations@)) == Some(t@),
            None => spec_rewrite(spec_pieces_view(pieces@), spec_captures_view(caps@), spec_pieces_view(locations@)) is None,
        }),
{
    let ghost pv = spec_pieces_view(pieces@);
    let ghost cv = spec_captures_view(caps@);
    let ghost lv = spec_pieces_view(locations@);
    if pieces.len() == 0 || pieces.len() - 1 != caps.len() {
        return None;
    }
    let mut out: Vec<char> = Vec::new();
    let mut i: usize = 0;
    while i < caps.len()
        invariant
            i <= caps@.len(),
            pieces@.len() == caps@.len() + 1,
            pv == spec_pieces_view(pieces@),
            cv == spec_captures_view(caps@),
            lv == spec_pieces_view(locations@),
            spec_interleave(pv, cv, lv, i as nat) == Some(out@),
        decreases caps@.len() - i,
    {
        let cap = &caps[i];
        assert(cv[i as int] == cap@.map_values(|g: Option<Vec<char>>| spec_group_view(g)));
        let ok = cap.len() > 2 && cap[1].is_some() && cap[2].is_some();
        if !ok {
            proof {
                assert(spec_rewritten_decl(cv[i as int], lv) is None);
                assert(spec_interleave(pv, cv, lv, (i + 1) as nat) is None);
                lemma_interleave_stays_none(pv, cv, lv, (i + 1) as nat, caps@.len() as nat);
            }
            return None;
        }
        let ty = match &cap[1] {
            Some(t) => t,
            None => {
                proof {
                    assert(false);
                }
                return None;
            },
        };
        let name = match &cap[2] {
            Some(n) => n,
            None => {
                proof {
                    assert(false);
                }
                return None;
            },
        };
        let empty: Vec<char> = Vec::new();
        let array = if cap.len() > 3 {
            match &cap[3] {
                Some(a) => a,
                None => &empty,
            }
        } else {
            &empty
        };
        let location = location_of(locations, name);
        let decl = layout_decl(location, ty, name, array);
        push_all(&mut out, &pieces[i]);
        push_all(&mut out, &decl);
        proof {
            assert(pv[i as int] == pieces@[i as int]@);
            if cap@.len() > 3 && cap@[3] is Some {
                assert(cv[i as int][3] == Some(array@));
            } else {
                assert(array@ =~= Seq::<char>::empty());
            }
            assert(spec_rewritten_decl(cv[i as int], lv) == Some(decl@));
        }
        i = i + 1;
    }
    push_all(&mut out, &pieces[caps.len()]);
    assert(pv.last() == pieces@[caps@.len() as int]@);
    Some(out)
}

/// The 3.30 names of the texture lookups.
pub open spec fn spec_texture_calls_330(s: Seq<char>) -> Seq<char> {
    spec_replace(spec_replace(s, "texture2D("@, "texture("@), "textureCubeLod("@, "textureLod("@)
}

/// The vertex stage after its attributes are rewritten: `varying` outputs become `out`.
pub open spec fn spec_finish_vertex_330(s: Seq<char>) -> Seq<char> {
    spec_texture_calls_330(spec_replace(s, "varying "@, "out "@))
}

/// The fragment stage after its attributes are rewritten: `varying` inputs become `in`,
/// and `gl_FragColor` becomes a declared output `_FragColor`.
pub open spec fn spec_finish_fragment_330(s: Seq<char>) -> Seq<char> {
    spec_texture_calls_330(
        spec_replace(
            spec_replace(spec_replace(s, "varying "@, "in "@), "gl_FragColor"@, "_FragColor"@),
            "void main("@,
            "out vec4 _FragColor;\nvoid main("@,
        ),
    )
}

fn texture_calls_330(s: &Vec<char>) -> (r: Vec<char>)
    ensures
        r@ == spec_texture_calls_330(s@),
{
    proof {
        reveal_strlit("texture2D(");
        reveal_strlit("textureCubeLod(");
    }
    let t = replace_all(s, &chars_of("texture2D("), &chars_of("texture("));
    replace_all(&t, &chars_of("textureCubeLod("), &chars_of("textureLod("))
}

/// Finishes the vertex stage: `varying` becomes `out`, and the texture lookups are
/// renamed.
pub fn finish_vertex_330(s: &Vec<char>) -> (r: Vec<char>)
    ensures
        r@ == spec_finish_vertex_330(s@),
{
    proof {
        reveal_strlit("varying ");
    }
    let t = replace_all(s, &chars_of("varying "), &chars_of("out "));
    texture_calls_330(&t)
}

/// Finishes the fragment stage: `varying` becomes `in`, the output `_FragColor` is
/// declared before `main` and written in place of `gl_FragColor`, and the texture
/// lookups are renamed.
pub fn finish_fragment_330(s: &Vec<char>) -> (r: Vec<char>)
    ensures
        r@ == spec_finish_fragment_330(s@),
{
    proof {
        reveal_strlit("varying ");
        reveal_strlit("gl_FragColor");
        reveal_strlit("void main(");
    }
    let t = replace_all(s, &chars_of("varying "), &chars_of("in "));
    let t = replace_all(&t, &chars_of("gl_FragColor"), &chars_of("_FragColor"));
    let t = replace_all(&t, &chars_of("void main("), &chars_of("out vec4 _FragColor;\nvoid main("));
    texture_calls_330(&t)
}

/// Both stages in GLSL 3.30: the attribute names of the vertex stage, then of the
/// fragment stage, in order of first occurrence, give the locations; each stage has its
/// attribute declarations rewritten with those locations, then is finished. `None` when
/// a pattern cannot be matched or a match lacks a group.
pub open spec fn spec_translate_330(vertex: Seq<char>, fragment: Seq<char>) -> Option<(Seq<char>, Seq<char>)> {
    let name_pat = ATTRIBUTE_NAME_PATTERN@;
    let decl_pat = ATTRIBUTE_DECL_PATTERN@;
    match (regex_capture_groups(name_pat, vertex), regex_capture_groups(name_pat, fragment)) {
        (Some(nv), Some(nf)) => match (spec_attribute_names(nv), spec_attribute_names(nf)) {
            (Some(av), Some(af)) => {
                let locations = spec_first_seen(av + af);
                match (
                    regex_split_pieces(decl_pat, vertex),
                    regex_capture_groups(decl_pat, vertex),
                    regex_split_pieces(decl_pat, fragment),
                    regex_capture_groups(decl_pat, fragment),
                ) {
                    (Some(pv), Some(cv), Some(pf), Some(cf)) => match (
                        spec_rewrite(pv, cv, locations),
                        spec_rewrite(pf, cf, locations),
                    ) {
                        (Some(v), Some(f)) => Some((spec_finish_vertex_330(v), spec_finish_fragment_330(f))),
                        _ => None,
                    },
                    _ => None,
                }
            },
            _ => None,
        },
        _ => None,
    }
}

/// Rewrites both stages to GLSL 3.30 (see `spec_translate_330`). Returns `false`, and
/// leaves both unchanged, when the declarations cannot be matched.
pub fn translate_shader_to_330(vertex: &mut Vec<char>, fragment: &mut Vec<char>) -> (ok: bool)
    ensures
        ok == spec_translate_330(old(vertex)@, old(fragment)@) is Some,
        ok ==> (final(vertex)@, final(fragment)@) == spec_translate_330(old(vertex)@, old(fragment)@)->0,
        !ok ==> final(vertex)@ == old(vertex)@ && final(fragment)@ == old(fragment)@,
{
    let nv = match regex_captures(ATTRIBUTE_NAME_PATTERN, vertex) {
        Some(c) => c,
        None => return false,
    };
    let nf = match regex_captures(ATTRIBUTE_NAME_PATTERN, fragment) {
        Some(c) => c,
        None => return false,
    };
    let av = match attribute_names(&nv) {
        Some(a) => a,
        None => return false,
    };
    let af = match attribute_names(&nf) {
        Some(a) => a,
        None => return false,
    };
    let mut all: Vec<Vec<char>> = Vec::new();
    let mut k: usize = 0;
    while k < av.len()
        invariant
            k <= av@.len(),
            spec_pieces_view(all@) == spec_pieces_view(av@).take(k as int),
        decreases av@.len() - k,
    {
        let ghost prev = all@;
        all.push(av[k].clone());
        assert(spec_pieces_view(all@) =~= spec_pieces_view(prev).push(av@[k as int]@));
        assert(spec_pieces_view(av@).take(k + 1) =~= spec_pieces_view(av@).take(k as int).push(av@[k as int]@));
        k = k + 1;
    }
    assert(spec_pieces_view(av@).take(k as int) =~= spec_pieces_view(av@));
    let mut k: usize = 0;
    while k < af.len()
        invariant
            k <= af@.len(),
            spec_pieces_view(all@) == spec_pieces_view(av@) + spec_pieces_view(af@).take(k as int),
        decreases af@.len() - k,
    {
        let ghost prev = all@;
        all.push(af[k].clone());
        assert(spec_pieces_view(all@) =~= spec_pieces_view(prev).push(af@[k as int]@));
        assert(spec_pieces_view(af@).take(k + 1) =~= spec_pieces_view(af@).take(k as int).push(af@[k as int]@));
        k = k + 1;
    }
    assert(spec_pieces_view(af@).take(k as int) =~= spec_pieces_view(af@));
    let locations = first_seen(&all);
    let pv = match regex_split(ATTRIBUTE_DECL_PATTERN, vertex) {
        Some(p) => p,
        None => return false,
    };
    let cv = match regex_captures(ATTRIBUTE_DECL_PATTERN, vertex) {
        Some(c) => c,
        None => return false,
    };
    let pf = match regex_split(ATTRIBUTE_DECL_PATTERN, fragment) {
        Some(p) => p,
        None => return false,
    };
    let cf = match regex_captures(ATTRIBUTE_DECL_PATTERN, fragment) {
        Some(c) => c,
        None => return false,
    };
    let v = match rewrite_declarations(&pv, &cv, &locations) {
        Some(t) => t,
        None => return false,
    };
    let f = match rewrite_declarations(&pf, &cf, &locations) {
        Some(t) => t,
        None => return false,
    };
    *vertex = finish_vertex_330(&v);
    *fragment = finish_fragment_330(&f);
    true
}

} // verus!
