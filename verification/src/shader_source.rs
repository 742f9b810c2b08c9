//! The source text handed to the GLSL compiler: a preamble with the version line,
//! the shader definitions and platform shims, followed by the shader with its
//! `#include` lines expanded from named snippets.

use vstd::prelude::*;
use crate::macos_compat::{spec_translate_330, translate_shader_to_330};

verus! {

/// The platform a shader is compiled for.
#[derive(PartialEq, Eq, Structural, Clone, Copy, Debug)]
pub enum Platform {
    /// OpenGL 2.1 (Windows, Linux): GLSL 1.20.
    Desktop,
    /// OpenGL 3.3 core (macOS): GLSL 3.30.
    MacOs,
    /// WebGL 1: GLSL ES 1.00.
    WebGl,
}

/// Named GLSL snippets that shaders include. A later snippet of the same name replaces
/// an earlier one.
pub struct ShaderSnippets {
    entries: Vec<(Vec<char>, Vec<char>)>,
}

pub open spec fn spec_entries_view(entries: Seq<(Vec<char>, Vec<char>)>) -> Seq<(Seq<char>, Seq<char>)> {
    entries.map_values(|e: (Vec<char>, Vec<char>)| (e.0@, e.1@))
}

/// The snippets by name: adding in order, a later one replacing an earlier one.
pub open spec fn spec_snippet_map(entries: Seq<(Seq<char>, Seq<char>)>) -> Map<Seq<char>, Seq<char>>
    decreases entries.len(),
{
    if entries.len() == 0 {
        Map::empty()
    } else {
        spec_snippet_map(entries.drop_last()).insert(entries.last().0, entries.last().1)
    }
}

proof fn lemma_snippet_map_suffix(entries: Seq<(Seq<char>, Seq<char>)>, k: int, name: Seq<char>)
    requires
        0 <= k <= entries.len(),
        forall|j: int| k <= j < entries.len() ==> (#[trigger] entries[j]).0 != name,
    ensures
        spec_snippet_map(entries).contains_key(name) == spec_snippet_map(entries.take(k)).contains_key(name),
        spec_snippet_map(entries).contains_key(name) ==> spec_snippet_map(entries)[name]
            == spec_snippet_map(entries.take(k))[name],
    decreases entries.len(),
{
    if k == entries.len() {
        assert(entries.take(k) =~= entries);
    } else {
        assert(entries.drop_last().take(k) =~= entries.take(k));
        lemma_snippet_map_suffix(entries.drop_last(), k, name);
        assert(entries[entries.len() - 1] == entries.last());
    }
}

impl ShaderSnippets {
    pub closed spec fn spec_map(&self) -> Map<Seq<char>, Seq<char>> {
        spec_snippet_map(spec_entries_view(self.entries@))
    }

    /// No snippet.
    pub fn new() -> (r: ShaderSnippets)
        ensures
            r.spec_map() == Map::<Seq<char>, Seq<char>>::empty(),
    {
        let r = ShaderSnippets { entries: Vec::new() };
        assert(spec_entries_view(r.entries@) =~= Seq::<(Seq<char>, Seq<char>)>::empty());
        r
    }

    /// Adds (or replaces) the snippet `name`.
    pub fn add_snippet(&mut self, name: Vec<char>, src: Vec<char>)
        ensures
            final(self).spec_map() == old(self).spec_map().insert(name@, src@),
    {
        let ghost n = name@;
        let ghost s = src@;
        let ghost before = spec_entries_view(self.entries@);
        self.entries.push((name, src));
        assert(spec_entries_view(self.entries@).drop_last() =~= before);
        assert(spec_entries_view(self.entries@).last() == (n, s));
    }

    /// The snippet named `name`.
    pub fn get(&self, name: &Vec<char>) -> (r: Option<&Vec<char>>)
        ensures
            r matches Some(v) ==> self.spec_map().contains_key(name@) && v@ == self.spec_map()[name@],
            r is None ==> !self.spec_map().contains_key(name@),
    {
        let ghost ev = spec_entries_view(self.entries@);
        let mut k: usize = self.entries.len();
        while k > 0
            invariant
                k <= self.entries@.len(),
                ev == spec_entries_view(self.entries@),
                forall|j: int| k <= j < ev.len() ==> (#[trigger] ev[j]).0 != name@,
            decreases k,
        {
            let e = &self.entries[k - 1];
            if vec_char_eq(&e.0, name) {
                proof {
                    lemma_snippet_map_suffix(ev, k as int, name@);
                    assert(ev.take(k as int).drop_last() =~= ev.take(k - 1));
                    assert(ev.take(k as int).last() == ev[k - 1]);
                }
                return Some(&e.1);
            }
            assert(ev[k - 1].0 == e.0@);
            k = k - 1;
        }
        proof {
            lemma_snippet_map_suffix(ev, 0, name@);
            assert(ev.take(0) =~= Seq::<(Seq<char>, Seq<char>)>::empty());
        }
        None
    }
}

/// Compares two character sequences.
pub fn vec_char_eq(a: &Vec<char>, b: &Vec<char>) -> (r: bool)
    ensures
        r == (a@ == b@),
{
    if a.len() != b.len() {
        return false;
    }
    let mut i: usize = 0;
    while i < a.len()
        invariant
            i <= a@.len(),
            a@.len() == b@.len(),
            forall|j: int| 0 <= j < i ==> a@[j] == b@[j],
        decreases a@.len() - i,
    {
        if a[i] != b[i] {
            return false;
        }
        i = i + 1;
    }
    assert(a@ =~= b@);
    true
}

/// Removes the carriage return ending a line, if any.
pub open spec fn spec_strip_cr(line: Seq<char>) -> Seq<char> {
    if line.len() > 0 && line.last() == '\r' {
        line.drop_last()
    } else {
        line
    }
}

/// Scans text for lines: the finished lines and the current one.
pub open spec fn spec_line_scan(s: Seq<char>) -> (Seq<Seq<char>>, Seq<char>)
    decreases s.len(),
{
    if s.len() == 0 {
        (Seq::empty(), Seq::empty())
    } else {
        let (done, cur) = spec_line_scan(s.drop_last());
        if s.last() == '\n' {
            (done.push(spec_strip_cr(cur)), Seq::empty())
        } else {
            (done, cur.push(s.last()))
        }
    }
}

/// The lines of a text: split at `\n` (a `\r` before it is dropped); a final line
/// ending is optional.
pub open spec fn spec_lines(s: Seq<char>) -> Seq<Seq<char>> {
    let (done, cur) = spec_line_scan(s);
    if cur.len() > 0 {
        done.push(cur)
    } else {
        done
    }
}

/// Splits text into its lines.
pub fn split_lines(s: &Vec<char>) -> (r: Vec<Vec<char>>)
    ensures
        r@.map_values(|l: Vec<char>| l@) == spec_lines(s@),
{
    let mut done: Vec<Vec<char>> = Vec::new();
    let mut cur: Vec<char> = Vec::new();
    let mut i: usize = 0;
    while i < s.len()
        invariant
            i <= s@.len(),
            (done@.map_values(|l: Vec<char>| l@), cur@) == spec_line_scan(s@.take(i as int)),
        decreases s@.len() - i,
    {
        assert(s@.take(i + 1).drop_last() =~= s@.take(i as int));
        assert(s@.take(i + 1).last() == s@[i as int]);
        let c = s[i];
        if c == '\n' {
            let mut line: Vec<char> = Vec::new();
            std::mem::swap(&mut line, &mut cur);
            if line.len() > 0 && line[line.len() - 1] == '\r' {
                line.pop();
            }
            let ghost prev = done@;
            done.push(line);
            assert(done@.map_values(|l: Vec<char>| l@) =~= prev.map_values(|l: Vec<char>| l@).push(
                line@,
            ));
        } else {
            cur.push(c);
        }
        i = i + 1;
    }
    assert(s@.take(i as int) =~= s@);
    if cur.len() > 0 {
        let ghost prev = done@;
        let ghost last = cur@;
        done.push(cur);
        assert(done@.map_values(|l: Vec<char>| l@) =~= prev.map_values(|l: Vec<char>| l@).push(last));
    }
    done
}

/// The characters `char::is_whitespace` accepts (Unicode `White_Space`).
pub open spec fn spec_is_whitespace(c: char) -> bool {
    ||| c == ' ' || c == '\t' || c == '\n' || c == '\u{0B}' || c == '\u{0C}' || c == '\r'
    ||| c == '\u{85}' || c == '\u{A0}' || c == '\u{1680}'
    ||| ('\u{2000}' <= c && c <= '\u{200A}')
    ||| c == '\u{2028}' || c == '\u{2029}' || c == '\u{202F}' || c == '\u{205F}' || c == '\u{3000}'
}

/// Whether a character is white space, as `char::is_whitespace` decides.
pub fn is_whitespace(c: char) -> (r: bool)
    ensures
        r == spec_is_whitespace(c),
{
    c == ' ' || c == '\t' || c == '\n' || c == '\u{0B}' || c == '\u{0C}' || c == '\r' || c == '\u{85}'
        || c == '\u{A0}' || c == '\u{1680}' || ('\u{2000}' <= c && c <= '\u{200A}') || c == '\u{2028}'
        || c == '\u{2029}' || c == '\u{202F}' || c == '\u{205F}' || c == '\u{3000}'
}

pub open spec fn spec_trim_start(s: Seq<char>) -> Seq<char>
    decreases s.len(),
{
    if s.len() > 0 && spec_is_whitespace(s[0]) {
        spec_trim_start(s.drop_first())
    } else {
        s
    }
}

pub open spec fn spec_trim_end(s: Seq<char>) -> Seq<char>
    decreases s.len(),
{
    if s.len() > 0 && spec_is_whitespace(s.last()) {
        spec_trim_end(s.drop_last())
    } else {
        s
    }
}

/// The text without leading and trailing white space.
pub open spec fn spec_trim(s: Seq<char>) -> Seq<char> {
    spec_trim_end(spec_trim_start(s))
}

/// Removes leading and trailing white space.
pub fn trim(s: &Vec<char>, from: usize) -> (r: Vec<char>)
    requires
        from <= s@.len(),
    ensures
        r@ == spec_trim(s@.skip(from as int)),
{
    let mut i: usize = from;
    while i < s.len() && is_whitespace(s[i])
        invariant
            from <= i <= s@.len(),
            spec_trim_start(s@.skip(from as int)) == spec_trim_start(s@.skip(i as int)),
        decreases s@.len() - i,
    {
        assert(s@.skip(i as int).drop_first() =~= s@.skip(i + 1));
        i = i + 1;
    }
    if i == s.len() {
        assert(s@.skip(i as int) =~= Seq::<char>::empty());
    }
    assert(spec_trim_start(s@.skip(from as int)) == s@.skip(i as int));
    let mut j: usize = s.len();
    while j > i && is_whitespace(s[j - 1])
        invariant
            i <= j <= s@.len(),
            spec_trim_end(s@.skip(i as int)) == spec_trim_end(s@.subrange(i as int, j as int)),
        decreases j,
    {
        assert(s@.subrange(i as int, j as int).drop_last() =~= s@.subrange(i as int, j - 1));
        j = j - 1;
    }
    assert(s@.skip(i as int) =~= s@.subrange(i as int, s@.len() as int));
    assert(spec_trim_end(s@.subrange(i as int, j as int)) == s@.subrange(i as int, j as int));
    let mut r: Vec<char> = Vec::new();
    let mut k: usize = i;
    while k < j
        invariant
            i <= k <= j,
            j <= s@.len(),
            r@ == s@.subrange(i as int, k as int),
        decreases j - k,
    {
        r.push(s[k]);
        assert(s@.subrange(i as int, k + 1) =~= s@.subrange(i as int, k as int).push(s@[k as int]));
        k = k + 1;
    }
    r
}

/// Whether `s` starts with `prefix`.
pub fn starts_with(s: &Vec<char>, prefix: &Vec<char>) -> (r: bool)
    ensures
        r == (s@.len() >= prefix@.len() && s@.take(prefix@.len() as int) == prefix@),
{
    if s.len() < prefix.len() {
        return false;
    }
    let mut i: usize = 0;
    while i < prefix.len()
        invariant
            i <= prefix@.len(),
            s@.len() >= prefix@.len(),
            forall|j: int| 0 <= j < i ==> s@[j] == prefix@[j],
        decreases prefix@.len() - i,
    {
        if s[i] != prefix[i] {
            assert(s@.take(prefix@.len() as int)[i as int] != prefix@[i as int]);
            return false;
        }
        i = i + 1;
    }
    assert(s@.take(prefix@.len() as int) =~= prefix@);
    true
}

/// The decimal digits of `n`.
pub open spec fn spec_decimal(n: nat) -> Seq<char>
    decreases n,
{
    if n < 10 {
        seq![spec_digit(n)]
    } else {
        spec_decimal(n / 10).push(spec_digit(n % 10))
    }
}

pub open spec fn spec_digit(d: nat) -> char {
    if d == 0 {
        '0'
    } else if d == 1 {
        '1'
    } else if d == 2 {
        '2'
    } else if d == 3 {
        '3'
    } else if d == 4 {
        '4'
    } else if d == 5 {
        '5'
    } else if d == 6 {
        '6'
    } else if d == 7 {
        '7'
    } else if d == 8 {
        '8'
    } else {
        '9'
    }
}

fn digit(d: usize) -> (c: char)
    requires
        d < 10,
    ensures
        c == spec_digit(d as nat),
{
    if d == 0 {
        '0'
    } else if d == 1 {
        '1'
    } else if d == 2 {
        '2'
    } else if d == 3 {
        '3'
    } else if d == 4 {
        '4'
    } else if d == 5 {
        '5'
    } else if d == 6 {
        '6'
    } else if d == 7 {
        '7'
    } else if d == 8 {
        '8'
    } else {
        '9'
    }
}

/// Appends the decimal digits of `n`.
pub fn push_decimal(n: usize, out: &mut Vec<char>)
    ensures
        final(out)@ == old(out)@ + spec_decimal(n as nat),
    decreases n,
{
    if n >= 10 {
        push_decimal(n / 10, out);
    }
    let ghost mid = out@;
    out.push(digit(n % 10));
    assert(out@ =~= mid.push(spec_digit((n % 10) as nat)));
}

/// Appends `src`.
pub fn push_all(out: &mut Vec<char>, src: &Vec<char>)
    ensures
        final(out)@ == old(out)@ + src@,
{
    let ghost start = out@;
    let mut i: usize = 0;
    while i < src.len()
        invariant
            i <= src@.len(),
            out@ == start + src@.take(i as int),
        decreases src@.len() - i,
    {
        out.push(src[i]);
        assert(src@.take(i + 1) =~= src@.take(i as int).push(src@[i as int]));
        i = i + 1;
    }
    assert(src@.take(i as int) =~= src@);
}

/// The characters of a string slice.
pub fn chars_of(s: &str) -> (r: Vec<char>)
    ensures
        r@ == s@,
{
    let n = s.unicode_len();
    let mut r: Vec<char> = Vec::new();
    let mut i: usize = 0;
    while i < n
        invariant
            i <= n,
            n == s@.len(),
            r@ == s@.take(i as int),
        decreases n - i,
    {
        r.push(s.get_char(i));
        assert(s@.take(i + 1) =~= s@.take(i as int).push(s@[i as int]));
        i = i + 1;
    }
    assert(s@.take(i as int) =~= s@);
    r
}

/// One line of the shader: an `#include` line is replaced by its snippet the first time
/// the snippet is included, and dropped otherwise (also when no such snippet exists);
/// every other line is kept. Line directives number the snippet as source string 1 and
/// resume the shader (string 0) after it.
pub open spec fn spec_include_step(
    snippets: Map<Seq<char>, Seq<char>>,
    st: (Seq<char>, Set<Seq<char>>),
    index: nat,
    line: Seq<char>,
) -> (Seq<char>, Set<Seq<char>>) {
    let inc = "#include"@;
    if line.len() >= inc.len() && line.take(inc.len() as int) == inc {
        let name = spec_trim(line.skip(inc.len() as int));
        if snippets.contains_key(name) && !st.1.contains(name) {
            (
                st.0 + "#line 0 1\n"@ + snippets[name] + "\n"@ + "#line "@ + spec_decimal(index) + " 0\n"@,
                st.1.insert(name),
            )
        } else {
            st
        }
    } else {
        (st.0 + line + "\n"@, st.1)
    }
}

/// The shader lines with their includes expanded, and the snippets included.
pub open spec fn spec_expand(snippets: Map<Seq<char>, Seq<char>>, lines: Seq<Seq<char>>) -> (Seq<char>, Set<Seq<char>>)
    decreases lines.len(),
{
    if lines.len() == 0 {
        (Seq::empty(), Set::empty())
    } else {
        spec_include_step(
            snippets,
            spec_expand(snippets, lines.drop_last()),
            (lines.len() - 1) as nat,
            lines.last(),
        )
    }
}

/// The first line of the preamble.
pub open spec fn spec_version_line(platform: Platform) -> Seq<char> {
    match platform {
        Platform::Desktop => "#version 120\n"@,
        Platform::MacOs => "#version 330\n"@,
        Platform::WebGl => "precision highp float;\n"@,
    }
}

/// `#define NAME VALUE` lines, one per definition that is not entirely empty.
pub open spec fn spec_defines(defs: Seq<(Seq<char>, Seq<char>)>) -> Seq<char>
    decreases defs.len(),
{
    if defs.len() == 0 {
        Seq::empty()
    } else {
        let rest = spec_defines(defs.drop_last());
        let (name, value) = defs.last();
        if name.len() == 0 && value.len() == 0 {
            rest
        } else {
            rest + "#define "@ + name + " "@ + value + "\n"@
        }
    }
}

/// The cube-map level-of-detail shim of fragment shaders.
pub open spec fn spec_cube_lod_shim(platform: Platform, has_glsl_cube_lod: bool) -> Seq<char> {
    match platform {
        Platform::WebGl => if has_glsl_cube_lod {
            "#extension GL_EXT_shader_texture_lod : enable\n"@
                + "vec4 textureCubeLod(samplerCube tex, vec3 dir, float lod) { return textureCubeLodEXT(tex, dir, lod); }\n"@
        } else {
            Seq::empty()
        },
        Platform::Desktop => if has_glsl_cube_lod {
            Seq::empty()
        } else {
            "vec4 textureCubeLod(samplerCube tex, vec3 dir, float lod) { return textureCube(tex, dir, lod); }\n"@
        },
        Platform::MacOs => Seq::empty(),
    }
}

/// The preamble: version line, definitions, the WebGL marker, and for fragment shaders
/// the cube-map level-of-detail shim.
pub open spec fn spec_preamble(
    platform: Platform,
    defs: Seq<(Seq<char>, Seq<char>)>,
    is_fragment: bool,
    has_glsl_cube_lod: bool,
) -> Seq<char> {
    spec_version_line(platform) + spec_defines(defs) + (if platform == Platform::WebGl {
        "#define WEBGL1\n"@
    } else {
        Seq::empty()
    }) + (if is_fragment {
        spec_cube_lod_shim(platform, has_glsl_cube_lod)
    } else {
        Seq::empty()
    })
}

/// The stages of one program share their preamble: the fragment stage's is the vertex
/// stage's followed by the cube-map level-of-detail shim, and on WebGL every stage's
/// preamble ends with the WebGL marker after the definitions.
pub proof fn lemma_preamble_of_stages(
    platform: Platform,
    defs: Seq<(Seq<char>, Seq<char>)>,
    has_glsl_cube_lod: bool,
)
    ensures
        spec_preamble(platform, defs, true, has_glsl_cube_lod) == spec_preamble(
            platform,
            defs,
            false,
            has_glsl_cube_lod,
        ) + spec_cube_lod_shim(platform, has_glsl_cube_lod),
        platform == Platform::WebGl ==> spec_preamble(platform, defs, false, has_glsl_cube_lod)
            == spec_version_line(platform) + spec_defines(defs) + "#define WEBGL1\n"@,
        platform != Platform::WebGl ==> spec_preamble(platform, defs, false, has_glsl_cube_lod)
            == spec_version_line(platform) + spec_defines(defs),
{
    let head = spec_version_line(platform) + spec_defines(defs);
    let marker: Seq<char> = if platform == Platform::WebGl {
        "#define WEBGL1\n"@
    } else {
        Seq::empty()
    };
    assert(spec_preamble(platform, defs, false, has_glsl_cube_lod) =~= head + marker);
    assert(spec_preamble(platform, defs, true, has_glsl_cube_lod) =~= head + marker
        + spec_cube_lod_shim(platform, has_glsl_cube_lod));
}

/// The full text handed to the compiler.
pub open spec fn spec_shader_text(
    source: Seq<char>,
    defs: Seq<(Seq<char>, Seq<char>)>,
    snippets: Map<Seq<char>, Seq<char>>,
    is_fragment: bool,
    has_glsl_cube_lod: bool,
    platform: Platform,
) -> Seq<char> {
    spec_preamble(platform, defs, is_fragment, has_glsl_cube_lod) + "\n"@ + spec_expand(
        snippets,
        spec_lines(source),
    ).0
}

/// Whether a list holds a name.
pub(crate) fn contains_name(names: &Vec<Vec<char>>, name: &Vec<char>) -> (r: bool)
    ensures
        r == names@.map_values(|n: Vec<char>| n@).contains(name@),
{
    let ghost nv = names@.map_values(|n: Vec<char>| n@);
    let mut i: usize = 0;
    while i < names.len()
        invariant
            i <= names@.len(),
            nv == names@.map_values(|n: Vec<char>| n@),
            forall|j: int| 0 <= j < i ==> nv[j] != name@,
        decreases names@.len() - i,
    {
        if vec_char_eq(&names[i], name) {
            assert(nv[i as int] == name@);
            return true;
        }
        i = i + 1;
    }
    false
}

/// Builds the source text of one shader stage for `platform`: the preamble (version
/// line, `#define` lines for `defs`, the WebGL marker, and for fragment shaders the
/// cube-map level-of-detail shim), an empty line, then the shader with each `#include`
/// line replaced by its snippet on first inclusion.
pub fn shader_text(
    source: &Vec<char>,
    defs: &Vec<(Vec<char>, Vec<char>)>,
    snippets: &ShaderSnippets,
    is_fragment: bool,
    has_glsl_cube_lod: bool,
    platform: Platform,
) -> (r: Vec<char>)
    ensures
        r@ == spec_shader_text(
            source@,
            spec_entries_view(defs@),
            snippets.spec_map(),
            is_fragment,
            has_glsl_cube_lod,
            platform,
        ),
{
    let mut preamble: Vec<char> = match platform {
        Platform::Desktop => chars_of("#version 120\n"),
        Platform::MacOs => chars_of("#version 330\n"),
        Platform::WebGl => chars_of("precision highp float;\n"),
    };
    let ghost dv = spec_entries_view(defs@);
    let ghost head = preamble@;
    let mut d: usize = 0;
    while d < defs.len()
        invariant
            d <= defs@.len(),
            dv == spec_entries_view(defs@),
            preamble@ == head + spec_defines(dv.take(d as int)),
        decreases defs@.len() - d,
    {
        assert(dv.take(d + 1).drop_last() =~= dv.take(d as int));
        assert(dv.take(d + 1).last() == dv[d as int]);
        let (name, value) = &defs[d];
        if !(name.len() == 0 && value.len() == 0) {
            push_all(&mut preamble, &chars_of("#define "));
            push_all(&mut preamble, name);
            push_all(&mut preamble, &chars_of(" "));
            push_all(&mut preamble, value);
            push_all(&mut preamble, &chars_of("\n"));
            assert(preamble@ =~= head + spec_defines(dv.take(d + 1)));
        }
        d = d + 1;
    }
    assert(dv.take(d as int) =~= dv);
    if platform == Platform::WebGl {
        push_all(&mut preamble, &chars_of("#define WEBGL1\n"));
    }
    let ghost before_shim = preamble@;
    if is_fragment {
        match platform {
            Platform::WebGl => {
                if has_glsl_cube_lod {
                    push_all(&mut preamble, &chars_of("#extension GL_EXT_shader_texture_lod : enable\n"));
                    push_all(
                        &mut preamble,
                        &chars_of(
                            "vec4 textureCubeLod(samplerCube tex, vec3 dir, float lod) { return textureCubeLodEXT(tex, dir, lod); }\n",
                        ),
                    );
                }
            },
            Platform::Desktop => {
                if !has_glsl_cube_lod {
                    push_all(
                        &mut preamble,
                        &chars_of(
                            "vec4 textureCubeLod(samplerCube tex, vec3 dir, float lod) { return textureCube(tex, dir, lod); }\n",
                        ),
                    );
                }
            },
            Platform::MacOs => {},
        }
    }
    assert(preamble@ =~= spec_preamble(platform, dv, is_fragment, has_glsl_cube_lod));

    let lines = split_lines(source);
    let ghost lv = lines@.map_values(|l: Vec<char>| l@);
    let directive = chars_of("#include");
    let mut expanded: Vec<char> = Vec::new();
    let mut included: Vec<Vec<char>> = Vec::new();
    let mut i: usize = 0;
    while i < lines.len()
        invariant
            i <= lines@.len(),
            lv == lines@.map_values(|l: Vec<char>| l@),
            lv == spec_lines(source@),
            directive@ == "#include"@,
            ({
                let st = spec_expand(snippets.spec_map(), lv.take(i as int));
                &&& expanded@ == st.0
                &&& included@.map_values(|n: Vec<char>| n@).to_set() == st.1
            }),
        decreases lines@.len() - i,
    {
        let line = &lines[i];
        proof {
            assert(lv.take(i + 1).drop_last() =~= lv.take(i as int));
            assert(lv.take(i + 1).last() == line@);
        }
        if starts_with(line, &directive) {
            let name = trim(line, directive.len());
            match snippets.get(&name) {
                Some(snippet) => {
                    if !contains_name(&included, &name) {
                        push_all(&mut expanded, &chars_of("#line 0 1\n"));
                        push_all(&mut expanded, snippet);
                        push_all(&mut expanded, &chars_of("\n"));
                        push_all(&mut expanded, &chars_of("#line "));
                        push_decimal(i, &mut expanded);
                        push_all(&mut expanded, &chars_of(" 0\n"));
                        let ghost prev = included@;
                        let ghost nm = name@;
                        included.push(name);
                        proof {
                            broadcast use vstd::seq_lib::group_seq_properties;
                            assert(included@.map_values(|n: Vec<char>| n@) =~= prev.map_values(
                                |n: Vec<char>| n@,
                            ).push(nm));
                        }
                    }
                },
                None => {},
            }
        } else {
            push_all(&mut expanded, line);
            push_all(&mut expanded, &chars_of("\n"));
        }
        i = i + 1;
    }
    assert(lv.take(i as int) =~= lv);
    let mut text = preamble;
    push_all(&mut text, &chars_of("\n"));
    push_all(&mut text, &expanded);
    text
}

/// The texts of a program's two stages: each built by `spec_shader_text` (the fragment
/// stage as a fragment shader); on macOS both are then rewritten to GLSL 3.30, and
/// `None` when that rewrite fails.
pub open spec fn spec_program_sources(
    vertex: Seq<char>,
    fragment: Seq<char>,
    defs: Seq<(Seq<char>, Seq<char>)>,
    snippets: Map<Seq<char>, Seq<char>>,
    has_glsl_cube_lod: bool,
    platform: Platform,
) -> Option<(Seq<char>, Seq<char>)> {
    let v = spec_shader_text(vertex, defs, snippets, false, has_glsl_cube_lod, platform);
    let f = spec_shader_text(fragment, defs, snippets, true, has_glsl_cube_lod, platform);
    if platform == Platform::MacOs {
        spec_translate_330(v, f)
    } else {
        Some((v, f))
    }
}

pub open spec fn spec_pair_view(r: Option<(Vec<char>, Vec<char>)>) -> Option<(Seq<char>, Seq<char>)> {
    match r {
        Some(p) => Some((p.0@, p.1@)),
        None => None,
    }
}

/// Builds the texts of both stages of a program for `platform` (see
/// `spec_program_sources`).
pub fn program_sources(
    vertex: &Vec<char>,
    fragment: &Vec<char>,
    defs: &Vec<(Vec<char>, Vec<char>)>,
    snippets: &ShaderSnippets,
    has_glsl_cube_lod: bool,
    platform: Platform,
) -> (r: Option<(Vec<char>, Vec<char>)>)
    ensures
        spec_pair_view(r) == spec_program_sources(
            vertex@,
            fragment@,
            spec_entries_view(defs@),
            snippets.spec_map(),
            has_glsl_cube_lod,
            platform,
        ),
{
    let mut v = shader_text(vertex, defs, snippets, false, has_glsl_cube_lod, platform);
    let mut f = shader_text(fragment, defs, snippets, true, has_glsl_cube_lod, platform);
    if platform == Platform::MacOs {
        if !translate_shader_to_330(&mut v, &mut f) {
            return None;
        }
    }
    Some((v, f))
}

} // verus!
