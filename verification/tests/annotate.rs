use gen_docs_template::annotate::annotate_declarations;
use gen_docs_template::members::{annotate_members, annotate_text};

#[test]
fn struct_with_fields_full_pipeline() {
    let input = "pub struct Point {\n    pub x: i32,\n    pub y: i32,\n}";
    let expected = "/// WIP_Point_struct_description\n\
                    pub struct Point {\n\
                    \x20   /// WIP_x_field_description\n\
                    \x20   pub x: i32,\n\
                    \x20   /// WIP_y_field_description\n\
                    \x20   pub y: i32,\n\
                    }\n";
    assert_eq!(annotate_text(input), expected);
}

#[test]
fn enum_final_variant_without_comma_not_annotated() {
    let input = "pub enum Color {\n    Red,\n    Green,\n    Blue\n}";
    let expected = "/// WIP_Color_enum_description\n\
                    pub enum Color {\n\
                    \x20   /// WIP_Red_variant_description\n\
                    \x20   Red,\n\
                    \x20   /// WIP_Green_variant_description\n\
                    \x20   Green,\n\
                    \x20   Blue\n\
                    }\n";
    assert_eq!(annotate_text(input), expected);
}

#[test]
fn trait_declaration_annotated() {
    let input = "pub trait Shape {\n    fn area(&self) -> u64;\n}";
    let out = annotate_declarations(input);
    assert_eq!(out, "/// WIP_Shape_trait_description\npub trait Shape {\n    fn area(&self) -> u64;\n}\n");
}

#[test]
fn public_function_annotated_private_function_not() {
    let input = "pub fn compute(x: i32) -> i32 {\n    x\n}\nfn helper() {\n}";
    let out = annotate_declarations(input);
    assert_eq!(
        out,
        "/// WIP_compute_function_description\npub fn compute(x: i32) -> i32 {\n    x\n}\nfn helper() {\n}\n"
    );
}

#[test]
fn indented_declaration_keeps_indentation() {
    let input = "mod inner {\n    pub struct Inner {\n    }\n}";
    let out = annotate_declarations(input);
    assert_eq!(
        out,
        "mod inner {\n    /// WIP_Inner_struct_description\n    pub struct Inner {\n    }\n}\n"
    );
}

#[test]
fn decorator_lines_stay_with_their_declaration() {
    let input = "#[derive(Debug)]\n#[repr(C)]\npub struct Tagged {\n    pub id: u32,\n}";
    let out = annotate_declarations(input);
    assert_eq!(
        out,
        "/// WIP_Tagged_struct_description\n#[derive(Debug)]\n#[repr(C)]\npub struct Tagged {\n    pub id: u32,\n}\n"
    );
}

#[test]
fn struct_without_visibility_qualifier_recognized() {
    let input = "struct Quiet {\n    pub a: u8,\n}";
    let out = annotate_text(input);
    assert_eq!(
        out,
        "/// WIP_Quiet_struct_description\nstruct Quiet {\n    /// WIP_a_field_description\n    pub a: u8,\n}\n"
    );
}

#[test]
fn one_line_empty_body_gets_no_member_scan() {
    let input = "pub struct Empty {}\n    pub stray: i32,\n";
    let out = annotate_members(input);
    // The body opens and closes on one line, so the later field-shaped line
    // stands outside any body and stays bare.
    assert_eq!(out, "pub struct Empty {}\n    pub stray: i32,\n");
}

#[test]
fn private_field_not_annotated() {
    let input = "pub struct P {\n    x: i32,\n}";
    let out = annotate_members(input);
    assert_eq!(out, "pub struct P {\n    x: i32,\n}\n");
}

#[test]
fn field_shaped_line_outside_struct_not_annotated() {
    let input = "fn f() {\n    pub x: i32,\n}";
    let out = annotate_members(input);
    assert_eq!(out, "fn f() {\n    pub x: i32,\n}\n");
}

#[test]
fn variant_needs_leading_whitespace_and_comma() {
    let input = "pub enum E {\nTop,\n    NoComma\n}";
    let out = annotate_members(input);
    // `Top,` begins at the line start, so the whitespace-identifier-comma
    // shape does not match it; `NoComma` lacks the comma.
    assert_eq!(out, "pub enum E {\nTop,\n    NoComma\n}\n");
}

#[test]
fn declaration_after_closed_body_annotated() {
    let input = "pub enum Outer {\n    First,\n}\npub fn after() {\n}";
    let out = annotate_text(input);
    assert_eq!(
        out,
        "/// WIP_Outer_enum_description\npub enum Outer {\n    /// WIP_First_variant_description\n    First,\n}\n/// WIP_after_function_description\npub fn after() {\n}\n"
    );
}

#[test]
fn empty_input_stays_empty() {
    assert_eq!(annotate_text(""), "");
}

#[test]
fn function_with_generics_not_annotated() {
    // The signature shape asks for an opening parenthesis right after the
    // name, so a generic parameter list blocks recognition.
    let input = "pub fn generic<T>(t: T) {\n}";
    assert_eq!(annotate_declarations(input), "pub fn generic<T>(t: T) {\n}\n");
}

#[test]
fn member_pass_alone_annotates_fields() {
    let input = "pub struct S {\n    pub a: u8,\n}";
    let out = annotate_members(input);
    assert_eq!(out, "pub struct S {\n    /// WIP_a_field_description\n    pub a: u8,\n}\n");
}

#[test]
fn unbalanced_extra_closing_brace_keeps_body_open() {
    // Brace counting is textual: a line driving the count negative does not
    // close the body, so later field lines are still annotated.
    let input = "pub struct S {\n    }}\n{\n    pub a: u8,\n";
    let out = annotate_members(input);
    assert_eq!(out, "pub struct S {\n    }}\n{\n    /// WIP_a_field_description\n    pub a: u8,\n");
}
