//! The handler collector: walks a structured token description of an
//! implementation block and extracts the publicly exported, function-shaped
//! members in declaration order, together with the binding their annotation
//! declares, if any.
//!
//! The token model is deliberately small: an identifier, a punctuation
//! character, a literal, or a bracketed group of tokens. An attribute is the
//! punctuation `#` immediately followed by a group; the binding text inside
//! it is the first nested group's tokens, rendered flat and read with the
//! `key = value` micro-grammar of the resolver. Non-exported members and
//! non-function members are silently skipped.

use vstd::prelude::*;
use vstd::string::*;

use crate::resolver::{ConfigError, KeyValue, KvView, spec_parse_args, parse_macro_args, str_eq};
use crate::table::{HandlerDeclaration, HandlerView};

verus! {

/// One token of the structured source description.
pub enum Tok {
    Ident(String),
    Punct(char),
    Literal(String),
    Group(Vec<Tok>),
}

/// The flat text of a single token; a nested group renders as nothing.
pub open spec fn spec_tok_text(t: Tok) -> Seq<char> {
    match t {
        Tok::Ident(s) => s@,
        Tok::Punct(c) => seq![c],
        Tok::Literal(s) => s@,
        Tok::Group(_) => Seq::empty(),
    }
}

/// The tokens from position `i` on, rendered as text with one space between
/// neighbouring tokens.
pub open spec fn render_flat(ts: Seq<Tok>, i: int) -> Seq<char>
    decreases ts.len() - i,
{
    if i < 0 || i >= ts.len() {
        Seq::empty()
    } else if i == ts.len() - 1 {
        spec_tok_text(ts[i])
    } else {
        spec_tok_text(ts[i]) + seq![' '] + render_flat(ts, i + 1)
    }
}

/// The tokens of the first nested group at or after position `i`, if any.
pub open spec fn first_group(ts: Seq<Tok>, i: int) -> Option<Seq<Tok>>
    decreases ts.len() - i,
{
    if i < 0 || i >= ts.len() {
        None
    } else {
        match ts[i] {
            Tok::Group(g) => Some(g@),
            _ => first_group(ts, i + 1),
        }
    }
}

/// The value of the first pair whose key is `binding`, if any.
pub open spec fn spec_extract_binding(kvs: Seq<KvView>) -> Option<Seq<char>>
    decreases kvs.len(),
{
    if kvs.len() == 0 {
        None
    } else if kvs[0].key == "binding"@ {
        Some(kvs[0].value)
    } else {
        spec_extract_binding(kvs.drop_first())
    }
}

/// The binding an attribute group declares: the first nested group's tokens,
/// rendered flat and read with the micro-grammar; an attribute whose payload
/// does not parse, or parses without a `binding` key, declares none.
pub open spec fn spec_attr_binding(attr: Seq<Tok>) -> Option<Seq<char>> {
    match first_group(attr, 0) {
        None => None,
        Some(args) => match spec_parse_args(render_flat(args, 0)) {
            None => None,
            Some(kvs) => spec_extract_binding(kvs),
        },
    }
}

/// The exported handlers among the tokens from position `i` on, in order.
///
/// `pending` is the binding declared by the attribute read most recently, not
/// yet attached to a member. An attribute (`#` then a group) replaces it; an
/// exported member (`pub fn name`) consumes it; a non-exported function
/// discards it; any other token leaves it standing.
pub open spec fn scan_members(ts: Seq<Tok>, i: int, pending: Option<Seq<char>>) -> Seq<
    HandlerView,
>
    decreases ts.len() - i,
{
    if i < 0 || i >= ts.len() {
        Seq::empty()
    } else {
        match ts[i] {
            Tok::Punct(c) => {
                if c == '#' && i + 1 < ts.len() && ts[i + 1] is Group {
                    scan_members(ts, i + 2, spec_attr_binding(ts[i + 1]->Group_0@))
                } else {
                    scan_members(ts, i + 1, pending)
                }
            },
            Tok::Ident(s) => {
                if s@ == "pub"@ && i + 2 < ts.len() && ts[i + 1] is Ident && ts[i
                    + 1]->Ident_0@ == "fn"@ && ts[i + 2] is Ident {
                    seq![HandlerView { name: ts[i + 2]->Ident_0@, binding: pending }]
                        + scan_members(ts, i + 3, None)
                } else if s@ == "fn"@ {
                    scan_members(ts, i + 1, None)
                } else {
                    scan_members(ts, i + 1, pending)
                }
            },
            _ => scan_members(ts, i + 1, pending),
        }
    }
}

/// Relies on std's `String::push`: appends exactly the given character at the
/// end of the string.
#[verifier::external_body]
fn push_char(s: &mut String, c: char)
    ensures
        final(s)@ == old(s)@.push(c),
{
    s.push(c);
}

/// The given character as a one-character string.
fn char_string(c: char) -> (r: String)
    ensures
        r@ == seq![c],
{
    let mut s = String::new();
    push_char(&mut s, c);
    proof {
        assert(s@ =~= seq![c]);
    }
    s
}

/// The flat text of a single token.
pub fn tok_text(t: &Tok) -> (r: String)
    ensures
        r@ == spec_tok_text(*t),
{
    match t {
        Tok::Ident(s) => s.clone(),
        Tok::Punct(c) => char_string(*c),
        Tok::Literal(s) => s.clone(),
        Tok::Group(_) => {
            let r = String::new();
            proof {
                assert(r@ =~= Seq::<char>::empty());
            }
            r
        },
    }
}

/// The tokens from position `i` on, rendered as flat text.
pub fn render_flat_toks(ts: &Vec<Tok>, i: usize) -> (r: String)
    requires
        i <= ts.len(),
    ensures
        r@ == render_flat(ts@, i as int),
    decreases ts.len() - i,
{
    if i == ts.len() {
        let r = String::new();
        proof {
            assert(r@ =~= Seq::<char>::empty());
        }
        r
    } else {
        let mut out = tok_text(&ts[i]);
        if i + 1 < ts.len() {
            proof {
                reveal_strlit(" ");
                assert(" "@ =~= seq![' ']);
            }
            out.append(" ");
            let rest = render_flat_toks(ts, i + 1);
            out.append(rest.as_str());
        }
        out
    }
}

/// The first nested group at or after position `i`, if any.
fn first_group_vec(ts: &Vec<Tok>, i: usize) -> (r: Option<&Vec<Tok>>)
    requires
        i <= ts.len(),
    ensures
        match r {
            Some(g) => first_group(ts@, i as int) == Some(g@),
            None => first_group(ts@, i as int) is None,
        },
    decreases ts.len() - i,
{
    if i == ts.len() {
        None
    } else {
        match &ts[i] {
            Tok::Group(g) => Some(g),
            _ => first_group_vec(ts, i + 1),
        }
    }
}

fn extract_binding_from(kvs: &Vec<KeyValue>, i: usize) -> (r: Option<String>)
    requires
        i <= kvs.len(),
    ensures
        match r {
            Some(v) => spec_extract_binding(kvs.deep_view().skip(i as int)) == Some(v@),
            None => spec_extract_binding(kvs.deep_view().skip(i as int)) is None,
        },
    decreases kvs.len() - i,
{
    proof {
        if i < kvs.len() {
            assert(kvs.deep_view().skip(i as int).drop_first() =~= kvs.deep_view().skip(
                i as int + 1,
            ));
            assert(kvs.deep_view().skip(i as int)[0] == kvs.deep_view()[i as int]);
        }
    }
    if i == kvs.len() {
        None
    } else if str_eq(kvs[i].key.as_str(), "binding") {
        Some(kvs[i].value.clone())
    } else {
        extract_binding_from(kvs, i + 1)
    }
}

/// The value of the first pair whose key is `binding`, if any.
pub fn extract_binding(parsed_args: &Vec<KeyValue>) -> (r: Option<String>)
    ensures
        match r {
            Some(v) => spec_extract_binding(parsed_args.deep_view()) == Some(v@),
            None => spec_extract_binding(parsed_args.deep_view()) is None,
        },
{
    proof {
        assert(parsed_args.deep_view().skip(0) =~= parsed_args.deep_view());
    }
    extract_binding_from(parsed_args, 0)
}

/// The binding an attribute group declares, if any.
pub fn attr_binding_text(attr: &Vec<Tok>) -> (r: Option<String>)
    ensures
        match r {
            Some(v) => spec_attr_binding(attr@) == Some(v@),
            None => spec_attr_binding(attr@) is None,
        },
{
    match first_group_vec(attr, 0) {
        None => None,
        Some(args) => {
            let text = render_flat_toks(args, 0);
            match parse_macro_args(text.as_str()) {
                Err(_) => None,
                Ok(kvs) => extract_binding(&kvs),
            }
        },
    }
}

/// The exported handlers among the tokens from position `i` on, in
/// declaration order.
pub fn collect_handlers_from(ts: &Vec<Tok>, i: usize, pending: Option<String>) -> (r: Vec<
    HandlerDeclaration,
>)
    requires
        i <= ts.len(),
    ensures
        r.deep_view() == scan_members(ts@, i as int, pending.deep_view()),
    decreases ts.len() - i,
{
    if i == ts.len() {
        let r: Vec<HandlerDeclaration> = Vec::new();
        proof {
            assert(r.deep_view() =~= Seq::<HandlerView>::empty());
        }
        r
    } else {
        match &ts[i] {
            Tok::Punct(c) => {
                if *c == '#' && i + 1 < ts.len() {
                    match &ts[i + 1] {
                        Tok::Group(g) => {
                            let b = attr_binding_text(g);
                            collect_handlers_from(ts, i + 2, b)
                        },
                        _ => collect_handlers_from(ts, i + 1, pending),
                    }
                } else {
                    collect_handlers_from(ts, i + 1, pending)
                }
            },
            Tok::Ident(s) => {
                let is_pub = str_eq(s.as_str(), "pub");
                if is_pub && ts.len() - i > 2 {
                    let ok_fn = match &ts[i + 1] {
                        Tok::Ident(f) => str_eq(f.as_str(), "fn"),
                        _ => false,
                    };
                    if ok_fn {
                        match &ts[i + 2] {
                            Tok::Ident(name) => {
                                let ghost pending_view = pending.deep_view();
                                let decl = HandlerDeclaration {
                                    name: name.clone(),
                                    declared_binding: pending,
                                };
                                let ghost decl_view = decl@;
                                let rest = collect_handlers_from(ts, i + 3, None);
                                let mut out = rest;
                                out.insert(0, decl);
                                proof {
                                    assert(decl_view == HandlerView {
                                        name: ts@[i as int + 2]->Ident_0@,
                                        binding: pending_view,
                                    });
                                    assert(out.deep_view() =~= seq![decl_view] + scan_members(
                                        ts@,
                                        i as int + 3,
                                        None::<Seq<char>>,
                                    ));
                                }
                                out
                            },
                            _ => {
                                if str_eq(s.as_str(), "fn") {
                                    collect_handlers_from(ts, i + 1, None)
                                } else {
                                    collect_handlers_from(ts, i + 1, pending)
                                }
                            },
                        }
                    } else {
                        if str_eq(s.as_str(), "fn") {
                            collect_handlers_from(ts, i + 1, None)
                        } else {
                            collect_handlers_from(ts, i + 1, pending)
                        }
                    }
                } else {
                    if str_eq(s.as_str(), "fn") {
                        collect_handlers_from(ts, i + 1, None)
                    } else {
                        collect_handlers_from(ts, i + 1, pending)
                    }
                }
            },
            _ => collect_handlers_from(ts, i + 1, pending),
        }
    }
}

/// Whether the token description is an inherent implementation block: it must
/// begin `impl <Name> { ... }`, and a trait implementation is rejected.
pub open spec fn spec_check_impl(ts: Seq<Tok>) -> Result<(), ConfigError> {
    if ts.len() < 3 {
        Err(ConfigError::NotImplBlock)
    } else if !(ts[0] is Ident && ts[0]->Ident_0@ == "impl"@) {
        Err(ConfigError::NotImplBlock)
    } else if ts[2] is Ident && ts[2]->Ident_0@ == "for"@ {
        Err(ConfigError::TraitImplNotSupported)
    } else {
        Ok(())
    }
}

/// Rejects anything that is not an inherent implementation block.
pub fn check_impl(ts: &Vec<Tok>) -> (r: Result<(), ConfigError>)
    ensures
        r == spec_check_impl(ts@),
{
    if ts.len() < 3 {
        return Err(ConfigError::NotImplBlock);
    }
    let head_ok = match &ts[0] {
        Tok::Ident(s) => str_eq(s.as_str(), "impl"),
        _ => false,
    };
    if !head_ok {
        return Err(ConfigError::NotImplBlock);
    }
    let trait_impl = match &ts[2] {
        Tok::Ident(s) => str_eq(s.as_str(), "for"),
        _ => false,
    };
    if trait_impl {
        return Err(ConfigError::TraitImplNotSupported);
    }
    Ok(())
}

/// The name of the implementation block and its exported handlers.
pub open spec fn spec_impl_meta(ts: Seq<Tok>) -> Result<
    (Seq<char>, Seq<HandlerView>),
    ConfigError,
> {
    match spec_check_impl(ts) {
        Err(e) => Err(e),
        Ok(_) => if ts[1] is Ident && ts[2] is Group {
            Ok((ts[1]->Ident_0@, scan_members(ts[2]->Group_0@, 0, None::<Seq<char>>)))
        } else {
            Err(ConfigError::NotImplBlock)
        },
    }
}

/// Checks the shape of the implementation block, then collects the name it
/// implements and its exported handlers in declaration order.
pub fn impl_block_meta(ts: &Vec<Tok>) -> (r: Result<
    (String, Vec<HandlerDeclaration>),
    ConfigError,
>)
    ensures
        match r {
            Ok(p) => spec_impl_meta(ts@) == Ok::<(Seq<char>, Seq<HandlerView>), ConfigError>(
                (p.0@, p.1.deep_view()),
            ),
            Err(e) => spec_impl_meta(ts@) == Err::<(Seq<char>, Seq<HandlerView>), ConfigError>(e),
        },
{
    match check_impl(ts) {
        Err(e) => Err(e),
        Ok(_) => {
            let name = match &ts[1] {
                Tok::Ident(s) => s.clone(),
                _ => {
                    return Err(ConfigError::NotImplBlock);
                },
            };
            match &ts[2] {
                Tok::Group(body) => {
                    let handlers = collect_handlers_from(body, 0, None);
                    proof {
                        assert(ts@[2]->Group_0@ == body@);
                    }
                    Ok((name, handlers))
                },
                _ => Err(ConfigError::NotImplBlock),
            }
        },
    }
}

} // verus!
