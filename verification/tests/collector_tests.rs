use fvm_actor_core::collector::{
    attr_binding_text, check_impl, extract_binding, impl_block_meta, render_flat_toks, tok_text,
    Tok,
};
use fvm_actor_core::resolver::{ConfigError, KeyValue};

fn ident(s: &str) -> Tok {
    Tok::Ident(s.to_string())
}

fn lit(s: &str) -> Tok {
    Tok::Literal(s.to_string())
}

/// The tokens of `#[fvm_export(binding = <b>)]`, as two top-level tokens.
fn export_attr(b: &str) -> Vec<Tok> {
    vec![
        Tok::Punct('#'),
        Tok::Group(vec![
            ident("fvm_export"),
            Tok::Group(vec![ident("binding"), Tok::Punct('='), lit(b)]),
        ]),
    ]
}

/// The tokens of a method `[pub] fn <name>() {}`.
fn method(public: bool, name: &str) -> Vec<Tok> {
    let mut toks = Vec::new();
    if public {
        toks.push(ident("pub"));
    }
    toks.push(ident("fn"));
    toks.push(ident(name));
    toks.push(Tok::Group(Vec::new()));
    toks.push(Tok::Group(Vec::new()));
    toks
}

fn impl_block(body: Vec<Tok>) -> Vec<Tok> {
    vec![ident("impl"), ident("Machine"), Tok::Group(body)]
}

#[test]
fn tok_text_renders_each_kind() {
    assert_eq!(tok_text(&ident("state")).as_str(), "state");
    assert_eq!(tok_text(&Tok::Punct('=')).as_str(), "=");
    assert_eq!(tok_text(&lit("2")).as_str(), "2");
    assert_eq!(tok_text(&Tok::Group(vec![ident("x")])).as_str(), "");
}

#[test]
fn render_flat_joins_with_spaces() {
    let toks = vec![ident("binding"), Tok::Punct('='), lit("2")];
    assert_eq!(render_flat_toks(&toks, 0).as_str(), "binding = 2");
}

#[test]
fn extract_binding_finds_first_binding_key() {
    let kvs = vec![
        KeyValue { key: "other".to_string(), value: "x".to_string() },
        KeyValue { key: "binding".to_string(), value: "7".to_string() },
    ];
    assert_eq!(extract_binding(&kvs).unwrap().as_str(), "7");
    let none = vec![KeyValue { key: "other".to_string(), value: "x".to_string() }];
    assert!(extract_binding(&none).is_none());
}

#[test]
fn attr_binding_reads_numeric_binding() {
    let attr = vec![
        ident("fvm_export"),
        Tok::Group(vec![ident("binding"), Tok::Punct('='), lit("2")]),
    ];
    assert_eq!(attr_binding_text(&attr).unwrap().as_str(), "2");
}

#[test]
fn attr_binding_unquotes_string_binding() {
    let attr = vec![
        ident("fvm_export"),
        Tok::Group(vec![ident("binding"), Tok::Punct('='), lit("\"say_hello\"")]),
    ];
    assert_eq!(attr_binding_text(&attr).unwrap().as_str(), "say_hello");
}

#[test]
fn attr_without_payload_declares_no_binding() {
    let attr = vec![ident("inline")];
    assert!(attr_binding_text(&attr).is_none());
}

#[test]
fn attr_with_foreign_payload_declares_no_binding() {
    // e.g. #[cfg(test)]: the payload has no `key = value` shape
    let attr = vec![ident("cfg"), Tok::Group(vec![ident("test")])];
    assert!(attr_binding_text(&attr).is_none());
}

#[test]
fn collects_public_fns_in_declaration_order() {
    let mut body = Vec::new();
    body.extend(method(true, "alpha"));
    body.extend(method(false, "hidden"));
    body.extend(method(true, "beta"));
    let (name, handlers) = impl_block_meta(&impl_block(body)).unwrap();
    assert_eq!(name.as_str(), "Machine");
    assert_eq!(handlers.len(), 2);
    assert_eq!(handlers[0].name.as_str(), "alpha");
    assert!(handlers[0].declared_binding.is_none());
    assert_eq!(handlers[1].name.as_str(), "beta");
}

#[test]
fn binding_annotation_attaches_to_next_export() {
    let mut body = Vec::new();
    body.extend(export_attr("2"));
    body.extend(method(true, "increment"));
    body.extend(export_attr("3"));
    body.extend(method(true, "reset"));
    let (_, handlers) = impl_block_meta(&impl_block(body)).unwrap();
    assert_eq!(handlers.len(), 2);
    assert_eq!(handlers[0].name.as_str(), "increment");
    assert_eq!(handlers[0].declared_binding.as_deref(), Some("2"));
    assert_eq!(handlers[1].name.as_str(), "reset");
    assert_eq!(handlers[1].declared_binding.as_deref(), Some("3"));
}

#[test]
fn annotation_on_private_fn_is_discarded() {
    let mut body = Vec::new();
    body.extend(export_attr("9"));
    body.extend(method(false, "private_helper"));
    body.extend(method(true, "exported"));
    let (_, handlers) = impl_block_meta(&impl_block(body)).unwrap();
    assert_eq!(handlers.len(), 1);
    assert_eq!(handlers[0].name.as_str(), "exported");
    assert!(handlers[0].declared_binding.is_none());
}

#[test]
fn check_impl_accepts_inherent_impl() {
    assert!(check_impl(&impl_block(Vec::new())).is_ok());
}

#[test]
fn check_impl_rejects_non_impl_item() {
    let toks = vec![ident("struct"), ident("Machine"), Tok::Group(Vec::new())];
    assert!(matches!(check_impl(&toks), Err(ConfigError::NotImplBlock)));
}

#[test]
fn check_impl_rejects_short_stream() {
    let toks = vec![ident("impl")];
    assert!(matches!(check_impl(&toks), Err(ConfigError::NotImplBlock)));
}

#[test]
fn check_impl_rejects_trait_impl() {
    let toks = vec![
        ident("impl"),
        ident("Greeter"),
        ident("for"),
        ident("Machine"),
        Tok::Group(Vec::new()),
    ];
    assert!(matches!(check_impl(&toks), Err(ConfigError::TraitImplNotSupported)));
}
