use bevy_opengl::uniform_derive::{
    get_glsl_binding, glsl_type_of, is_handle_image, is_option_handle_image, is_texture,
    uniform_set_bindings, vec_of, ArgShape, BindingError, TypeShape, UniformField,
};

fn chars(s: &str) -> Vec<char> {
    s.chars().collect()
}

fn text(v: &[char]) -> String {
    v.iter().collect()
}

fn path(last: &str, args: Vec<TypeShape>) -> TypeShape {
    TypeShape::Path { last: chars(last), args: args.into_iter().map(ArgShape::Type).collect() }
}

fn simple(last: &str) -> TypeShape {
    path(last, vec![])
}

fn field(name: &str, ty: TypeShape) -> UniformField {
    UniformField { name: chars(name), ty, excluded: false, base_type: None, array_max: None }
}

#[test]
fn texture_types() {
    let handle_image = path("Handle", vec![simple("Image")]);
    assert!(is_handle_image(&handle_image));
    assert!(!is_handle_image(&path("Handle", vec![simple("Mesh")])));
    assert!(is_option_handle_image(&path("Option", vec![path("Handle", vec![simple("Image")])])));
    assert!(!is_option_handle_image(&path("Option", vec![simple("Image")])));
    assert!(is_texture(&simple("Texture")));
    assert!(is_texture(&simple("TextureRef")));
    assert!(is_texture(&handle_image));
    assert!(!is_texture(&simple("Vec4")));
    assert!(!is_texture(&TypeShape::Other));
}

#[test]
fn vec_element_type() {
    assert_eq!(vec_of(&path("Vec", vec![simple("Vec4")])).map(|v| text(&v)), Some("Vec4".to_string()));
    assert_eq!(vec_of(&simple("Vec4")), None);
    let lifetime_arg = TypeShape::Path { last: chars("Vec"), args: vec![ArgShape::Other] };
    assert_eq!(vec_of(&lifetime_arg), None);
}

#[test]
fn glsl_type_table() {
    for (rust, glsl) in [("f32", "float"), ("Vec3", "vec3"), ("i32", "int"), ("IVec4", "ivec4"), ("Mat4", "mat4"), ("bool", "bool")] {
        assert_eq!(glsl_type_of(&chars(rust)).map(|v| text(&v)), Some(glsl.to_string()));
    }
    assert_eq!(glsl_type_of(&chars("u32")), None);
}

#[test]
fn bindings_of_fields() {
    let binding = |f: &UniformField, tex: bool| get_glsl_binding(f, tex).map(|v| text(&v));
    assert_eq!(binding(&field("base_color", simple("Vec4")), false), Ok("uniform vec4 base_color;".to_string()));
    let tex = field("base_color_texture", path("Option", vec![path("Handle", vec![simple("Image")])]));
    assert_eq!(binding(&tex, true), Ok("uniform sampler2D base_color_texture;".to_string()));
    let mut lights = field("point_light_position_range", path("Vec", vec![simple("Vec4")]));
    assert_eq!(binding(&lights, false), Err(BindingError::MissingArrayMax));
    lights.array_max = Some(chars("MAX_POINT_LIGHTS"));
    assert_eq!(binding(&lights, false), Ok("uniform vec4 point_light_position_range[MAX_POINT_LIGHTS];".to_string()));
    let mut cube = field("specular_map", path("Handle", vec![simple("Image")]));
    cube.base_type = Some(chars("samplerCube"));
    assert_eq!(binding(&cube, true), Ok("uniform samplerCube specular_map;".to_string()));
    assert_eq!(binding(&field("name", simple("String")), false), Err(BindingError::UnrecognizedType));
    assert_eq!(binding(&field("r", TypeShape::Other), false), Err(BindingError::UnrecognizedType));
}

#[test]
fn uniform_set_skips_excluded_fields() {
    let mut excluded = field("alpha_mode", simple("AlphaMode"));
    excluded.excluded = true;
    let fields = vec![
        field("metallic", simple("f32")),
        excluded,
        field("emissive_texture", path("Option", vec![path("Handle", vec![simple("Image")])])),
    ];
    let bindings = uniform_set_bindings(&fields).unwrap();
    let got: Vec<(String, bool, String)> =
        bindings.iter().map(|b| (text(&b.name), b.is_texture, text(&b.declaration))).collect();
    assert_eq!(
        got,
        vec![
            ("metallic".to_string(), false, "uniform float metallic;".to_string()),
            ("emissive_texture".to_string(), true, "uniform sampler2D emissive_texture;".to_string()),
        ]
    );
    let bad = vec![field("ok", simple("f32")), field("bad", simple("u64")), field("list", path("Vec", vec![simple("f32")]))];
    assert!(matches!(uniform_set_bindings(&bad), Err(BindingError::UnrecognizedType)));
}
