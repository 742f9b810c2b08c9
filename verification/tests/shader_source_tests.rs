use bevy_opengl::macos_compat::{
    finish_fragment_330, finish_vertex_330, first_seen, replace_all, translate_shader_to_330,
};
use bevy_opengl::shader_source::{
    is_whitespace, program_sources, shader_text, split_lines, trim, Platform, ShaderSnippets,
};

fn chars(s: &str) -> Vec<char> {
    s.chars().collect()
}

fn text(v: &[char]) -> String {
    v.iter().collect()
}

fn defs(list: &[(&str, &str)]) -> Vec<(Vec<char>, Vec<char>)> {
    list.iter().map(|(a, b)| (chars(a), chars(b))).collect()
}

fn snippets() -> ShaderSnippets {
    let mut s = ShaderSnippets::new();
    s.add_snippet(chars("foo"), chars("old"));
    s.add_snippet(chars("foo"), chars("float foo;"));
    s
}

#[test]
fn snippets_later_wins() {
    let s = snippets();
    assert_eq!(s.get(&chars("foo")).map(|v| text(v)), Some("float foo;".to_string()));
    assert!(s.get(&chars("bar")).is_none());
}

#[test]
fn whitespace_matches_char_is_whitespace() {
    for c in (0u32..0x3100).filter_map(char::from_u32) {
        assert_eq!(is_whitespace(c), c.is_whitespace(), "{:?}", c);
    }
}

#[test]
fn lines_and_trim_like_std() {
    let src = "a\r\nb\n\nc";
    let lines: Vec<String> = split_lines(&chars(src)).iter().map(|l| text(l)).collect();
    assert_eq!(lines, src.lines().map(|l| l.to_string()).collect::<Vec<_>>());
    assert_eq!(split_lines(&chars("x\n")).len(), 1);
    assert_eq!(text(&trim(&chars("#include  foo \t"), 8)), "foo");
}

#[test]
fn desktop_vertex_text() {
    let source = chars("void main() {}\n#include foo\n#include foo\n#include bar\nx");
    let out = shader_text(&source, &defs(&[("A", "1"), ("", "")]), &snippets(), false, true, Platform::Desktop);
    assert_eq!(
        text(&out),
        "#version 120\n#define A 1\n\nvoid main() {}\n#line 0 1\nfloat foo;\n#line 1 0\nx\n"
    );
}

#[test]
fn fragment_preambles() {
    let source = chars("void main() {}");
    let desktop = shader_text(&source, &vec![], &snippets(), true, false, Platform::Desktop);
    assert_eq!(
        text(&desktop),
        "#version 120\nvec4 textureCubeLod(samplerCube tex, vec3 dir, float lod) { return textureCube(tex, dir, lod); }\n\nvoid main() {}\n"
    );
    let web = shader_text(&source, &defs(&[("X", "")]), &snippets(), true, true, Platform::WebGl);
    assert_eq!(
        text(&web),
        "precision highp float;\n#define X \n#define WEBGL1\n#extension GL_EXT_shader_texture_lod : enable\nvec4 textureCubeLod(samplerCube tex, vec3 dir, float lod) { return textureCubeLodEXT(tex, dir, lod); }\n\nvoid main() {}\n"
    );
    let mac = shader_text(&source, &vec![], &snippets(), true, false, Platform::MacOs);
    assert_eq!(text(&mac), "#version 330\n\nvoid main() {}\n");
}

#[test]
fn replace_like_std() {
    for (s, from, to) in [("aaa", "aa", "b"), ("varying x; varying y;", "varying ", "in "), ("abc", "d", "e"), ("", "x", "y")] {
        assert_eq!(text(&replace_all(&chars(s), &chars(from), &chars(to))), s.replace(from, to));
    }
}

#[test]
fn attribute_locations_first_seen() {
    let names = vec![chars("b"), chars("a"), chars("b"), chars("c"), chars("a")];
    let locations: Vec<String> = first_seen(&names).iter().map(|n| text(n)).collect();
    assert_eq!(locations, vec!["b", "a", "c"]);
}

#[test]
fn finish_stages_330() {
    assert_eq!(
        text(&finish_vertex_330(&chars("varying vec2 v;\nvoid main() { texture2D(t, v); textureCubeLod(c, d, 0.0); }"))),
        "out vec2 v;\nvoid main() { texture(t, v); textureLod(c, d, 0.0); }"
    );
    assert_eq!(
        text(&finish_fragment_330(&chars("varying vec2 v;\nvoid main() { gl_FragColor = texture2D(t, v); }"))),
        "in vec2 v;\nout vec4 _FragColor;\nvoid main() { _FragColor = texture(t, v); }"
    );
}

#[test]
fn translate_to_330() {
    let mut vertex = chars(
        "attribute vec3 a_pos;\nattribute highp vec2 a_uv[2];\n// attribute float skip;\nvarying vec2 v_uv;\nvoid main() { gl_Position = texture2D(t, a_uv[0]); }\n",
    );
    let mut fragment = chars("varying vec2 v_uv;\nvoid main() { gl_FragColor = textureCubeLod(c, v, 0.0); }\n");
    assert!(translate_shader_to_330(&mut vertex, &mut fragment));
    assert_eq!(
        text(&vertex),
        "layout (location = 0) in vec3 a_pos;\nlayout (location = 1) in vec2 a_uv[2];\n// attribute float skip;\nout vec2 v_uv;\nvoid main() { gl_Position = texture(t, a_uv[0]); }\n"
    );
    assert_eq!(
        text(&fragment),
        "in vec2 v_uv;\nout vec4 _FragColor;\nvoid main() { _FragColor = textureLod(c, v, 0.0); }\n"
    );
}

#[test]
fn both_stages_share_attribute_locations() {
    let mut vertex = chars("attribute vec3 b;\nattribute vec3 a;\n");
    let mut fragment = chars("attribute vec3 a;\nattribute vec3 c;\n");
    assert!(translate_shader_to_330(&mut vertex, &mut fragment));
    assert_eq!(text(&vertex), "layout (location = 0) in vec3 b;\nlayout (location = 1) in vec3 a;\n");
    assert_eq!(text(&fragment), "layout (location = 1) in vec3 a;\nlayout (location = 2) in vec3 c;\n");
}

#[test]
fn program_sources_per_platform() {
    let (v, f) = program_sources(&chars("attribute vec3 p;\nvoid main() {}"), &chars("void main() { gl_FragColor = vec4(1.0); }"), &vec![], &snippets(), true, Platform::Desktop).unwrap();
    assert_eq!(text(&v), "#version 120\n\nattribute vec3 p;\nvoid main() {}\n");
    assert_eq!(text(&f), "#version 120\n\nvoid main() { gl_FragColor = vec4(1.0); }\n");
    let (v, f) = program_sources(&chars("attribute vec3 p;\nvoid main() {}"), &chars("void main() { gl_FragColor = vec4(1.0); }"), &vec![], &snippets(), true, Platform::MacOs).unwrap();
    // the declaration's match starts at the blank line before it, which it absorbs
    assert_eq!(text(&v), "#version 330\nlayout (location = 0) in vec3 p;\nvoid main() {}\n");
    assert_eq!(text(&f), "#version 330\n\nout vec4 _FragColor;\nvoid main() { _FragColor = vec4(1.0); }\n");
}
