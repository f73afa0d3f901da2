//! Reading a definition function from its tokens: the signature, whose builder parameter
//! names the machine and its context, and the statements, each a chain of builder calls.
//! `syn` parses the tokens and hands out the pieces; the rules, the numbering of types and
//! closures, and the blocks of calls are this module's.

use vstd::prelude::*;
use vstd::string::StrSliceExecFns;
use crate::classic::inspect_data::str_equal;
use crate::derive::parse::{FsmBlock, MethodCall, ParseError, TypeArg};
use crate::derive::definition::{build_fsm, build_accepts, build_must_accept, build_refuses};
use crate::derive::meta::{FsmFnBase, FsmFnInput};
use crate::fsm::table::FsmTable;

verus! {

/// `proc_macro2::TokenStream`: a definition function's tokens; nothing inside is seen.
#[verifier::external_type_specification]
#[verifier::external_body]
pub struct ExTokenStream(proc_macro2::TokenStream);

/// `proc_macro2::Ident`, carried through for code generation.
#[verifier::external_type_specification]
#[verifier::external_body]
pub struct ExIdent(proc_macro2::Ident);

/// `syn::Error`, passed on as it is.
#[verifier::external_type_specification]
#[verifier::external_body]
pub struct ExSynError(syn::Error);

/// `syn::ItemFn`, read only through the names below.
#[verifier::external_type_specification]
#[verifier::external_body]
pub struct ExItemFn(syn::ItemFn);

/// `syn::Stmt`, read only through the names below.
#[verifier::external_type_specification]
#[verifier::external_body]
pub struct ExStmt(syn::Stmt);

/// `syn::Expr`, read only through the names below.
#[verifier::external_type_specification]
#[verifier::external_body]
pub struct ExExpr(syn::Expr);

/// `syn::ExprMethodCall`, read only through the names below.
#[verifier::external_type_specification]
#[verifier::external_body]
pub struct ExExprMethodCall(syn::ExprMethodCall);

/// `syn::ExprClosure`, carried through for code generation.
#[verifier::external_type_specification]
#[verifier::external_body]
pub struct ExExprClosure(syn::ExprClosure);

/// `syn::Type`, read only through the names below and carried through for code generation.
#[verifier::external_type_specification]
#[verifier::external_body]
pub struct ExType(syn::Type);

/// `syn::Generics`, carried through for code generation.
#[verifier::external_type_specification]
#[verifier::external_body]
pub struct ExGenerics(syn::Generics);

/// The first parameter of a function: `self`, or a typed parameter with its identifier (and
/// the identifier's text) when its pattern is one, and its type.
pub enum ParamSyntax {
    Receiver,
    Typed { ident: Option<(proc_macro2::Ident, String)>, ty: syn::Type },
}

/// A chain of method calls, the outermost call first, and what the innermost receiver is: an
/// identifier (its text) or something else.
pub struct ChainSyntax {
    pub calls: Vec<syn::ExprMethodCall>,
    pub root: Option<String>,
}

/// The function item that the tokens parse as, if they do.
pub uninterp spec fn parsed_fn(item: proc_macro2::TokenStream) -> Option<syn::ItemFn>;

/// The number of the function's parameters.
pub uninterp spec fn fn_input_count(f: syn::ItemFn) -> usize;

/// The function's first parameter.
pub uninterp spec fn fn_first_param(f: syn::ItemFn) -> Option<ParamSyntax>;

/// The identifier of the function's return type, when it is a path that is one.
pub uninterp spec fn fn_return_ident(f: syn::ItemFn) -> Option<Seq<char>>;

/// The function's generics.
pub uninterp spec fn fn_generics(f: syn::ItemFn) -> syn::Generics;

/// The statements of the function's body.
pub uninterp spec fn fn_statements(f: syn::ItemFn) -> Seq<syn::Stmt>;

/// The expression of an expression statement, with or without its semicolon.
pub uninterp spec fn stmt_expr(s: syn::Stmt) -> Option<syn::Expr>;

/// The chain of method calls that the expression is.
pub uninterp spec fn expr_chain(e: syn::Expr) -> ChainSyntax;

/// The call's method name.
pub uninterp spec fn call_name(c: syn::ExprMethodCall) -> Seq<char>;

/// The call's turbofish arguments, each the type it is when it is a type.
pub uninterp spec fn call_type_args(c: syn::ExprMethodCall) -> Seq<Option<syn::Type>>;

/// The call's arguments, each the closure it is when it is one.
pub uninterp spec fn call_closure_args(c: syn::ExprMethodCall) -> Seq<Option<syn::ExprClosure>>;

/// The type's tokens, as text.
pub uninterp spec fn type_text(t: syn::Type) -> Seq<char>;

/// For a path type, whether each of its segments is without arguments; `None` for another
/// type.
pub uninterp spec fn type_segments(t: syn::Type) -> Option<Seq<bool>>;

/// For a path type whose first segment has angle-bracketed arguments, those arguments, each
/// the type it is when it is a type.
pub uninterp spec fn type_first_angle(t: syn::Type) -> Option<Seq<Option<syn::Type>>>;

/// The type with the first path segment's arguments taken out.
pub uninterp spec fn type_without_args(t: syn::Type) -> syn::Type;

/// The type's name: its last path segment's identifier, or its tokens as text.
pub uninterp spec fn type_label_text(t: syn::Type) -> Seq<char>;

/// `syn::parse2::<syn::ItemFn>`: the function item the tokens parse as, named `parsed_fn`.
#[verifier::external_body]
fn read_item_fn(item: &proc_macro2::TokenStream) -> (r: Result<syn::ItemFn, syn::Error>)
    ensures
        r is Ok <==> parsed_fn(*item) is Some,
        r matches Ok(f) ==> parsed_fn(*item) == Some(f),
{
    syn::parse2::<syn::ItemFn>(item.clone())
}

/// `Punctuated::len` on the function's parameters.
#[verifier::external_body]
fn input_count(f: &syn::ItemFn) -> (r: usize)
    ensures
        r == fn_input_count(*f),
{
    f.sig.inputs.len()
}

/// `Punctuated::first` on the function's parameters, converted to `ParamSyntax`.
#[verifier::external_body]
fn first_param(f: &syn::ItemFn) -> (r: Option<ParamSyntax>)
    ensures
        r == fn_first_param(*f),
{
    match f.sig.inputs.first() {
        None => None,
        Some(syn::FnArg::Receiver(_)) => Some(ParamSyntax::Receiver),
        Some(syn::FnArg::Typed(pt)) => Some(ParamSyntax::Typed {
            ident: match &*pt.pat {
                syn::Pat::Ident(pi) => Some((pi.ident.clone(), pi.ident.to_string())),
                _ => None,
            },
            ty: (*pt.ty).clone(),
        }),
    }
}

/// `Path::get_ident` on the return type, when it is a path, as text.
#[verifier::external_body]
fn return_ident(f: &syn::ItemFn) -> (r: Option<String>)
    ensures
        r is Some <==> fn_return_ident(*f) is Some,
        r matches Some(s) ==> fn_return_ident(*f) == Some(s@),
{
    match &f.sig.output {
        syn::ReturnType::Type(_, ty) => match &**ty {
            syn::Type::Path(tp) => tp.path.get_ident().map(|i| i.to_string()),
            _ => None,
        },
        syn::ReturnType::Default => None,
    }
}

/// `Generics::clone` on the function's generics.
#[verifier::external_body]
fn generics(f: &syn::ItemFn) -> (r: syn::Generics)
    ensures
        r == fn_generics(*f),
{
    f.sig.generics.clone()
}

/// `Vec::clone` on the statements of the function's body.
#[verifier::external_body]
fn statements(f: &syn::ItemFn) -> (r: Vec<syn::Stmt>)
    ensures
        r@ == fn_statements(*f),
{
    f.block.stmts.clone()
}

/// The expression of a `syn::Stmt::Expr` or `syn::Stmt::Semi`.
#[verifier::external_body]
fn statement_expr(s: &syn::Stmt) -> (r: Option<syn::Expr>)
    ensures
        r == stmt_expr(*s),
{
    match s {
        syn::Stmt::Expr(e) | syn::Stmt::Semi(e, _) => Some(e.clone()),
        _ => None,
    }
}

/// The receivers of `syn::ExprMethodCall`s followed down from the expression, and
/// `Path::get_ident` on the innermost one when it is a path.
#[verifier::external_body]
fn method_chain(e: &syn::Expr) -> (r: ChainSyntax)
    ensures
        r == expr_chain(*e),
{
    let mut calls = Vec::new();
    let mut cur = e;
    while let syn::Expr::MethodCall(mc) = cur {
        calls.push(mc.clone());
        cur = &*mc.receiver;
    }
    let root = match cur {
        syn::Expr::Path(p) => p.path.get_ident().map(|i| i.to_string()),
        _ => None,
    };
    ChainSyntax { calls, root }
}

/// The `Ident::to_string` of the call's method.
#[verifier::external_body]
fn method_name(c: &syn::ExprMethodCall) -> (r: String)
    ensures
        r@ == call_name(*c),
{
    c.method.to_string()
}

/// `Punctuated::iter` over the call's turbofish arguments, each the type it is.
#[verifier::external_body]
fn turbofish_types(c: &syn::ExprMethodCall) -> (r: Vec<Option<syn::Type>>)
    ensures
        r@ == call_type_args(*c),
{
    let mut r = Vec::new();
    if let Some(tf) = &c.turbofish {
        for a in tf.args.iter() {
            r.push(if let syn::GenericMethodArgument::Type(t) = a { Some(t.clone()) } else { None });
        }
    }
    r
}

/// `Punctuated::iter` over the call's arguments, each the closure it is.
#[verifier::external_body]
fn closure_args(c: &syn::ExprMethodCall) -> (r: Vec<Option<syn::ExprClosure>>)
    ensures
        r@ == call_closure_args(*c),
{
    let mut r = Vec::new();
    for a in c.args.iter() {
        r.push(if let syn::Expr::Closure(cl) = a { Some(cl.clone()) } else { None });
    }
    r
}

/// `ToTokens::to_token_stream` on the type, as text.
#[verifier::external_body]
fn type_tokens_text(t: &syn::Type) -> (r: String)
    ensures
        r@ == type_text(*t),
{
    quote::ToTokens::to_token_stream(t).to_string()
}

/// `PathArguments::is_empty` on each segment of a path type.
#[verifier::external_body]
fn segments_of(t: &syn::Type) -> (r: Option<Vec<bool>>)
    ensures
        r is Some <==> type_segments(*t) is Some,
        r matches Some(v) ==> type_segments(*t) == Some(v@),
{
    match t {
        syn::Type::Path(tp) => Some(tp.path.segments.iter().map(|s| s.arguments.is_empty()).collect()),
        _ => None,
    }
}

/// `Punctuated::first` on a path type's segments, then `Punctuated::iter` over its
/// angle-bracketed arguments, each the type it is.
#[verifier::external_body]
fn first_angle_of(t: &syn::Type) -> (r: Option<Vec<Option<syn::Type>>>)
    ensures
        r is Some <==> type_first_angle(*t) is Some,
        r matches Some(v) ==> type_first_angle(*t) == Some(v@),
{
    let syn::Type::Path(tp) = t else { return None };
    match tp.path.segments.first().map(|s| &s.arguments) {
        Some(syn::PathArguments::AngleBracketed(g)) => Some(g.args.iter().map(|a| match a {
            syn::GenericArgument::Type(ty) => Some(ty.clone()),
            _ => None,
        }).collect()),
        _ => None,
    }
}

/// `Type::clone` with the first path segment's arguments set to `PathArguments::None`.
#[verifier::external_body]
fn strip_args(t: &syn::Type) -> (r: syn::Type)
    ensures
        r == type_without_args(*t),
{
    let mut t = t.clone();
    if let syn::Type::Path(tp) = &mut t {
        if let Some(seg) = tp.path.segments.first_mut() {
            seg.arguments = syn::PathArguments::None;
        }
    }
    t
}

/// The last path segment's identifier (`Ident::to_string`), or the tokens as text.
#[verifier::external_body]
fn type_label(t: &syn::Type) -> (r: String)
    ensures
        r@ == type_label_text(*t),
{
    match t {
        syn::Type::Path(tp) => match tp.path.segments.last() {
            Some(seg) => seg.ident.to_string(),
            None => quote::ToTokens::to_token_stream(t).to_string(),
        },
        _ => quote::ToTokens::to_token_stream(t).to_string(),
    }
}

/// A call as plain values: its name, its type arguments and its closure.
pub open spec fn call_model(m: MethodCall) -> (Seq<char>, Seq<TypeArg>, Option<usize>) {
    (m.name@, m.generics@, m.closure)
}

pub open spec fn block_model(b: FsmBlock) -> Seq<(Seq<char>, Seq<TypeArg>, Option<usize>)> {
    b.method_calls@.map_values(|m: MethodCall| call_model(m))
}

/// Whether a path segment of the type has arguments.
pub open spec fn type_has_generics(t: syn::Type) -> bool {
    type_segments(t) is Some && has_false(type_segments(t)->Some_0)
}

/// Some entry is `false`.
pub open spec fn has_false(s: Seq<bool>) -> bool {
    exists|i: int| 0 <= i < s.len() && !#[trigger] s[i]
}

/// The builder's identifier and its text, the machine's type without its generic arguments,
/// and the context's type; or the first rule the signature breaks: one parameter, typed,
/// bound to an identifier, of a path type of one segment whose angle-bracketed arguments
/// start with two types, the first of them a path; and the return type `BuiltFsm`.
pub open spec fn spec_signature(f: syn::ItemFn) -> Result<
    (proc_macro2::Ident, Seq<char>, syn::Type, syn::Type),
    ParseError,
> {
    if fn_input_count(f) != 1 {
        Err(ParseError::SingleInputOnly)
    } else {
        match fn_first_param(f) {
            None => Err(ParseError::SingleInputOnly),
            Some(ParamSyntax::Receiver) => Err(ParseError::TypedInputOnly),
            Some(ParamSyntax::Typed { ident, ty }) => match ident {
                None => Err(ParseError::IdentPatternOnly),
                Some((id, text)) => match type_segments(ty) {
                    None => Err(ParseError::IncorrectBuilderType),
                    Some(segs) => if segs.len() != 1 {
                        Err(ParseError::SingleSegmentOnly)
                    } else {
                        match type_first_angle(ty) {
                            None => Err(ParseError::SingleSegmentOnly),
                            Some(args) => if args.len() >= 2 && args[0] is Some && args[1] is Some {
                                let fsm = args[0]->Some_0;
                                if type_segments(fsm) is None {
                                    Err(ParseError::UnsupportedFsmType)
                                } else if fn_return_ident(f) == Some("BuiltFsm"@) {
                                    Ok((id, text@, type_without_args(fsm), args[1]->Some_0))
                                } else {
                                    Err(ParseError::ReturnTypeNotBuiltFsm)
                                }
                            } else {
                                Err(ParseError::ExpectedGenericPair)
                            },
                        }
                    },
                },
            },
        }
    }
}

/// The types, closures and blocks read so far; types are numbered by their text, in order
/// of first use, and closures in order.
pub ghost struct ReadModel {
    pub types: Seq<syn::Type>,
    pub texts: Seq<Seq<char>>,
    pub closures: Seq<syn::ExprClosure>,
    pub blocks: Seq<Seq<(Seq<char>, Seq<TypeArg>, Option<usize>)>>,
}

pub open spec fn empty_read() -> ReadModel {
    ReadModel { types: Seq::empty(), texts: Seq::empty(), closures: Seq::empty(), blocks: Seq::empty() }
}

/// The first position of `t` in `texts` from `i` on.
pub open spec fn text_index(texts: Seq<Seq<char>>, t: Seq<char>, i: int) -> Option<int>
    decreases texts.len() - i,
{
    if i < 0 || i >= texts.len() {
        None
    } else if texts[i] == t {
        Some(i)
    } else {
        text_index(texts, t, i + 1)
    }
}

/// The number of a type, numbering it when its text is new.
pub open spec fn read_type(m: ReadModel, ty: syn::Type) -> (ReadModel, usize) {
    match text_index(m.texts, type_text(ty), 0) {
        Some(k) => (m, k as usize),
        None => (
            ReadModel { types: m.types.push(ty), texts: m.texts.push(type_text(ty)), ..m },
            m.texts.len() as usize,
        ),
    }
}

/// The type arguments of a call: the arguments that are types, numbered.
pub open spec fn read_type_args(m: ReadModel, args: Seq<Option<syn::Type>>) -> (ReadModel, Seq<TypeArg>)
    decreases args.len(),
{
    if args.len() == 0 {
        (m, Seq::empty())
    } else {
        let (m1, ts) = read_type_args(m, args.drop_last());
        match args.last() {
            Some(ty) => {
                let (m2, id) = read_type(m1, ty);
                (m2, ts.push(TypeArg { ty: id, has_generics: type_has_generics(ty) }))
            },
            None => (m1, ts),
        }
    }
}

/// A call: its name, its type arguments, and its closure when its single argument is one.
pub open spec fn read_call(m: ReadModel, c: syn::ExprMethodCall) -> (ReadModel, (Seq<char>, Seq<TypeArg>, Option<usize>)) {
    let (m1, gs) = read_type_args(m, call_type_args(c));
    let args = call_closure_args(c);
    if args.len() == 1 && args[0] is Some {
        (
            ReadModel { closures: m1.closures.push(args[0]->Some_0), ..m1 },
            (call_name(c), gs, Some(m1.closures.len() as usize)),
        )
    } else {
        (m1, (call_name(c), gs, None))
    }
}

/// The calls, in order.
pub open spec fn read_calls(m: ReadModel, calls: Seq<syn::ExprMethodCall>) -> (
    ReadModel,
    Seq<(Seq<char>, Seq<TypeArg>, Option<usize>)>,
)
    decreases calls.len(),
{
    if calls.len() == 0 {
        (m, Seq::empty())
    } else {
        let (m1, cs) = read_calls(m, calls.drop_last());
        let (m2, c) = read_call(m1, calls.last());
        (m2, cs.push(c))
    }
}

/// A statement: an expression that is a chain of calls on the builder, the first call first.
pub open spec fn read_stmt(m: ReadModel, s: syn::Stmt, builder: Seq<char>) -> Result<ReadModel, ParseError> {
    match stmt_expr(s) {
        None => Err(ParseError::UnsupportedStatement),
        Some(e) => {
            let ch = expr_chain(e);
            match ch.root {
                Some(root) => if root@ == builder {
                    let (m1, cs) = read_calls(m, ch.calls@.reverse());
                    Ok(ReadModel { blocks: m1.blocks.push(cs), ..m1 })
                } else {
                    Err(ParseError::UnsupportedStatement)
                },
                None => Err(ParseError::UnsupportedStatement),
            }
        },
    }
}

pub open spec fn read_stmts(m: ReadModel, stmts: Seq<syn::Stmt>, builder: Seq<char>) -> Result<ReadModel, ParseError>
    decreases stmts.len(),
{
    if stmts.len() == 0 {
        Ok(m)
    } else {
        match read_stmts(m, stmts.drop_last(), builder) {
            Ok(m1) => read_stmt(m1, stmts.last(), builder),
            Err(e) => Err(e),
        }
    }
}

/// What the definition function reads as: its builder, the machine's and the context's
/// types, its generics, and its statements' types, closures and blocks.
pub ghost struct DefinitionModel {
    pub builder_ident: proc_macro2::Ident,
    pub fsm_ty: syn::Type,
    pub context_ty: syn::Type,
    pub generics: syn::Generics,
    pub read: ReadModel,
}

/// The definition function that the tokens are, or why they are refused: `None` when they
/// are not a function, else the rule broken.
pub open spec fn spec_definition(item: proc_macro2::TokenStream) -> Result<DefinitionModel, Option<ParseError>> {
    match parsed_fn(item) {
        None => Err(None),
        Some(f) => match spec_signature(f) {
            Err(e) => Err(Some(e)),
            Ok((id, text, fsm, ctx)) => match read_stmts(empty_read(), fn_statements(f), text) {
                Err(e) => Err(Some(e)),
                Ok(m) => Ok(DefinitionModel { builder_ident: id, fsm_ty: fsm, context_ty: ctx, generics: fn_generics(f), read: m }),
            },
        },
    }
}

/// A definition function, read: its builder, the machine's type without generic arguments,
/// the context's type, its generics, the types its statements name (numbered), their texts,
/// its closures (numbered) and its blocks of calls.
pub struct DefinitionFn {
    pub builder_ident: proc_macro2::Ident,
    pub fsm_ty: syn::Type,
    pub context_ty: syn::Type,
    pub fsm_generics: syn::Generics,
    pub types: Vec<syn::Type>,
    pub type_texts: Vec<String>,
    pub closures: Vec<syn::ExprClosure>,
    pub blocks: Vec<FsmBlock>,
}

impl DefinitionFn {
    pub open spec fn view(&self) -> DefinitionModel {
        DefinitionModel {
            builder_ident: self.builder_ident,
            fsm_ty: self.fsm_ty,
            context_ty: self.context_ty,
            generics: self.fsm_generics,
            read: ReadModel {
                types: self.types@,
                texts: self.type_texts@.map_values(|s: String| s@),
                closures: self.closures@,
                blocks: self.blocks@.map_values(|b: FsmBlock| block_model(b)),
            },
        }
    }
}

struct Reader {
    types: Vec<syn::Type>,
    texts: Vec<String>,
    closures: Vec<syn::ExprClosure>,
    blocks: Vec<FsmBlock>,
}

impl Reader {
    spec fn view(&self) -> ReadModel {
        ReadModel {
            types: self.types@,
            texts: self.texts@.map_values(|s: String| s@),
            closures: self.closures@,
            blocks: self.blocks@.map_values(|b: FsmBlock| block_model(b)),
        }
    }

    fn find_text(&self, t: &str) -> (r: Option<usize>)
        ensures
            r matches Some(k) ==> text_index(self@.texts, t@, 0) == Some(k as int) && k < self.texts@.len(),
            r is None ==> text_index(self@.texts, t@, 0) is None,
    {
        let ghost texts = self@.texts;
        let mut i: usize = 0;
        while i < self.texts.len()
            invariant
                i <= self.texts@.len(),
                texts == self.texts@.map_values(|s: String| s@),
                text_index(texts, t@, 0) == text_index(texts, t@, i as int),
            decreases self.texts@.len() - i,
        {
            if str_equal(self.texts[i].as_str(), t) {
                return Some(i);
            }
            i = i + 1;
        }
        None
    }

    fn read_type(&mut self, ty: syn::Type) -> (id: usize)
        ensures
            (final(self)@, id) == read_type(old(self)@, ty),
    {
        let text = type_tokens_text(&ty);
        match self.find_text(text.as_str()) {
            Some(k) => k,
            None => {
                let id = self.texts.len();
                let ghost before = self@;
                self.types.push(ty);
                self.texts.push(text);
                assert(self@.texts =~= before.texts.push(type_text(ty)));
                id
            },
        }
    }
}

fn has_generics(ty: &syn::Type) -> (r: bool)
    ensures
        r == type_has_generics(*ty),
{
    match segments_of(ty) {
        None => false,
        Some(segs) => {
            let mut i: usize = 0;
            while i < segs.len()
                invariant
                    i <= segs@.len(),
                    type_segments(*ty) == Some(segs@),
                    forall|j: int| 0 <= j < i ==> segs@[j],
                decreases segs@.len() - i,
            {
                if !segs[i] {
                    assert(!segs@[i as int]);
                    assert(has_false(segs@));
                    return true;
                }
                i = i + 1;
            }
            false
        },
    }
}

impl Reader {
    fn read_type_args(&mut self, args: Vec<Option<syn::Type>>) -> (r: Vec<TypeArg>)
        ensures
            (final(self)@, r@) == read_type_args(old(self)@, args@),
    {
        let ghost all = args@;
        let mut rest = args;
        let n = rest.len();
        let mut out: Vec<TypeArg> = Vec::new();
        let mut i: usize = 0;
        assert(all.take(0) =~= Seq::<Option<syn::Type>>::empty());
        assert(rest@ =~= all.skip(0));
        while i < n
            invariant
                n == all.len(),
                i <= n,
                rest@ == all.skip(i as int),
                (self@, out@) == read_type_args(old(self)@, all.take(i as int)),
            decreases n - i,
        {
            assert(all.take(i + 1).drop_last() =~= all.take(i as int));
            let a = rest.remove(0);
            assert(a == all[i as int]);
            assert(rest@ =~= all.skip(i + 1));
            match a {
                Some(ty) => {
                    let hg = has_generics(&ty);
                    let id = self.read_type(ty);
                    out.push(TypeArg { ty: id, has_generics: hg });
                },
                None => {},
            }
            i = i + 1;
        }
        assert(all.take(n as int) =~= all);
        out
    }

    fn read_call(&mut self, c: &syn::ExprMethodCall) -> (r: MethodCall)
        ensures
            (final(self)@, call_model(r)) == read_call(old(self)@, *c),
    {
        let tys = turbofish_types(c);
        let generics = self.read_type_args(tys);
        let name = method_name(c);
        let mut args = closure_args(c);
        if args.len() == 1 {
            match args.pop() {
                Some(Some(cl)) => {
                    let k = self.closures.len();
                    self.closures.push(cl);
                    return MethodCall { name, generics, closure: Some(k) };
                },
                _ => {},
            }
        }
        MethodCall { name, generics, closure: None }
    }

    /// Reads the calls of a chain given outermost first, so the first call first.
    fn read_chain(&mut self, calls: &Vec<syn::ExprMethodCall>) -> (r: Vec<MethodCall>)
        ensures
            (final(self)@, r@.map_values(|m: MethodCall| call_model(m))) == read_calls(old(self)@, calls@.reverse()),
    {
        let ghost rev = calls@.reverse();
        let n = calls.len();
        let mut out: Vec<MethodCall> = Vec::new();
        let mut j: usize = 0;
        assert(rev.take(0) =~= Seq::<syn::ExprMethodCall>::empty());
        assert(out@.map_values(|m: MethodCall| call_model(m)) =~= Seq::empty());
        while j < n
            invariant
                n == calls@.len(),
                rev == calls@.reverse(),
                rev.len() == n,
                j <= n,
                (self@, out@.map_values(|m: MethodCall| call_model(m))) == read_calls(old(self)@, rev.take(j as int)),
            decreases n - j,
        {
            assert(rev.take(j + 1).drop_last() =~= rev.take(j as int));
            assert(rev[j as int] == calls@[n - 1 - j]);
            let ghost before = out@.map_values(|m: MethodCall| call_model(m));
            let m = self.read_call(&calls[n - 1 - j]);
            out.push(m);
            assert(out@.map_values(|m: MethodCall| call_model(m)) =~= before.push(call_model(m)));
            j = j + 1;
        }
        assert(rev.take(n as int) =~= rev);
        out
    }

    fn read_stmt(&mut self, s: &syn::Stmt, builder: &str) -> (r: Result<(), ParseError>)
        ensures
            read_stmt(old(self)@, *s, builder@) matches Ok(m) ==> r is Ok && final(self)@ == m,
            read_stmt(old(self)@, *s, builder@) matches Err(e) ==> r == Err::<(), ParseError>(e),
    {
        let e = match statement_expr(s) {
            None => {
                return Err(ParseError::UnsupportedStatement);
            },
            Some(e) => e,
        };
        let ch = method_chain(&e);
        match &ch.root {
            None => {
                return Err(ParseError::UnsupportedStatement);
            },
            Some(root) => {
                if !str_equal(root.as_str(), builder) {
                    return Err(ParseError::UnsupportedStatement);
                }
            },
        }
        let method_calls = self.read_chain(&ch.calls);
        let ghost before = self@;
        self.blocks.push(FsmBlock { method_calls });
        assert(self@.blocks =~= before.blocks.push(block_model(FsmBlock { method_calls })));
        Ok(())
    }
}

proof fn lemma_read_stmts_prefix_err(m: ReadModel, stmts: Seq<syn::Stmt>, b: Seq<char>, k: int)
    requires
        0 <= k <= stmts.len(),
        read_stmts(m, stmts.take(k), b) is Err,
    ensures
        read_stmts(m, stmts, b) == read_stmts(m, stmts.take(k), b),
    decreases stmts.len(),
{
    if k == stmts.len() {
        assert(stmts.take(k) =~= stmts);
    } else {
        assert(stmts.drop_last().take(k) =~= stmts.take(k));
        lemma_read_stmts_prefix_err(m, stmts.drop_last(), b, k);
    }
}

fn check_signature(f: &syn::ItemFn) -> (r: Result<(proc_macro2::Ident, String, syn::Type, syn::Type), ParseError>)
    ensures
        spec_signature(*f) matches Err(e) ==> r == Err::<(proc_macro2::Ident, String, syn::Type, syn::Type), ParseError>(e),
        spec_signature(*f) matches Ok((id, text, fsm, ctx)) ==> r matches Ok((id2, text2, fsm2, ctx2)) && id2 == id
            && text2@ == text && fsm2 == fsm && ctx2 == ctx,
{
    if input_count(f) != 1 {
        return Err(ParseError::SingleInputOnly);
    }
    let (ident, ty) = match first_param(f) {
        None => {
            return Err(ParseError::SingleInputOnly);
        },
        Some(ParamSyntax::Receiver) => {
            return Err(ParseError::TypedInputOnly);
        },
        Some(ParamSyntax::Typed { ident, ty }) => (ident, ty),
    };
    let (id, text) = match ident {
        None => {
            return Err(ParseError::IdentPatternOnly);
        },
        Some(x) => x,
    };
    match segments_of(&ty) {
        None => {
            return Err(ParseError::IncorrectBuilderType);
        },
        Some(segs) => {
            if segs.len() != 1 {
                return Err(ParseError::SingleSegmentOnly);
            }
        },
    }
    let mut args = match first_angle_of(&ty) {
        None => {
            return Err(ParseError::SingleSegmentOnly);
        },
        Some(args) => args,
    };
    if args.len() < 2 {
        return Err(ParseError::ExpectedGenericPair);
    }
    let a0 = args.remove(0);
    let a1 = args.remove(0);
    let (fsm, ctx) = match (a0, a1) {
        (Some(fsm), Some(ctx)) => (fsm, ctx),
        _ => {
            return Err(ParseError::ExpectedGenericPair);
        },
    };
    if segments_of(&fsm).is_none() {
        return Err(ParseError::UnsupportedFsmType);
    }
    let fsm = strip_args(&fsm);
    match return_ident(f) {
        Some(s) => {
            if !str_equal(s.as_str(), "BuiltFsm") {
                return Err(ParseError::ReturnTypeNotBuiltFsm);
            }
        },
        None => {
            return Err(ParseError::ReturnTypeNotBuiltFsm);
        },
    }
    Ok((id, text, fsm, ctx))
}

/// Why a definition function is refused: its tokens are not a function, it breaks a rule of
/// the signature or of the statements, or its declarations are refused (given with the
/// function as read).
pub enum DefinitionError {
    Syntax(syn::Error),
    Refused(ParseError),
    Declarations(ParseError, DefinitionFn),
}

/// Reads a definition function from its tokens, as `spec_definition` says.
pub fn read_definition(item: &proc_macro2::TokenStream) -> (r: Result<DefinitionFn, DefinitionError>)
    ensures
        spec_definition(*item) == Err::<DefinitionModel, Option<ParseError>>(None) ==> r matches Err(DefinitionError::Syntax(_)),
        spec_definition(*item) matches Err(Some(e)) ==> r matches Err(DefinitionError::Refused(e2)) && e2 == e,
        spec_definition(*item) matches Ok(m) ==> r matches Ok(d) && d@ == m,
        r is Ok || r matches Err(DefinitionError::Syntax(_)) || r matches Err(DefinitionError::Refused(_)),
{
    let f = match read_item_fn(item) {
        Ok(f) => f,
        Err(e) => {
            return Err(DefinitionError::Syntax(e));
        },
    };
    let (builder_ident, builder_text, fsm_ty, context_ty) = match check_signature(&f) {
        Ok(x) => x,
        Err(e) => {
            return Err(DefinitionError::Refused(e));
        },
    };
    let stmts = statements(&f);
    let mut reader = Reader { types: Vec::new(), texts: Vec::new(), closures: Vec::new(), blocks: Vec::new() };
    assert(reader@ == empty_read()) by {
        assert(reader@.texts =~= Seq::<Seq<char>>::empty());
        assert(reader@.blocks =~= Seq::<Seq<(Seq<char>, Seq<TypeArg>, Option<usize>)>>::empty());
    }
    let ghost b = builder_text@;
    proof {
        assert(parsed_fn(*item) == Some(f));
    }
    let ghost spec_err = match read_stmts(empty_read(), stmts@, b) {
        Err(e) => Some(e),
        Ok(_) => None,
    };
    assert(spec_err matches Some(e) ==> spec_definition(*item) == Err::<DefinitionModel, Option<ParseError>>(Some(e)));
    let mut i: usize = 0;
    assert(stmts@.take(0) =~= Seq::<syn::Stmt>::empty());
    while i < stmts.len()
        invariant
            i <= stmts@.len(),
            b == builder_text@,
            spec_err == match read_stmts(empty_read(), stmts@, b) {
                Err(e) => Some(e),
                Ok(_) => None,
            },
            spec_err matches Some(e) ==> spec_definition(*item) == Err::<DefinitionModel, Option<ParseError>>(Some(e)),
            read_stmts(empty_read(), stmts@.take(i as int), b) == Ok::<ReadModel, ParseError>(reader@),
        decreases stmts@.len() - i,
    {
        assert(stmts@.take(i + 1).drop_last() =~= stmts@.take(i as int));
        match reader.read_stmt(&stmts[i], builder_text.as_str()) {
            Ok(()) => {},
            Err(e) => {
                proof {
                    lemma_read_stmts_prefix_err(empty_read(), stmts@, b, i + 1);
                }
                return Err(DefinitionError::Refused(e));
            },
        }
        i = i + 1;
    }
    assert(stmts@.take(stmts@.len() as int) =~= stmts@);
    let fsm_generics = generics(&f);
    let Reader { types, texts, closures, blocks } = reader;
    Ok(DefinitionFn { builder_ident, fsm_ty, context_ty, fsm_generics, types, type_texts: texts, closures, blocks })
}

fn type_labels(types: &Vec<syn::Type>) -> (r: Vec<String>)
    ensures
        r@.map_values(|s: String| s@) == types@.map_values(|t: syn::Type| type_label_text(t)),
{
    let mut out: Vec<String> = Vec::new();
    let mut i: usize = 0;
    while i < types.len()
        invariant
            i <= types@.len(),
            out@.map_values(|s: String| s@) == types@.take(i as int).map_values(|t: syn::Type| type_label_text(t)),
        decreases types@.len() - i,
    {
        let l = type_label(&types[i]);
        let ghost before = out@.map_values(|s: String| s@);
        out.push(l);
        assert(out@.map_values(|s: String| s@) =~= before.push(l@));
        assert(types@.take(i + 1).map_values(|t: syn::Type| type_label_text(t)) =~= types@.take(i as int).map_values(
            |t: syn::Type| type_label_text(t),
        ).push(type_label_text(types@[i as int])));
        i = i + 1;
    }
    assert(types@.take(types@.len() as int) =~= types@);
    out
}

/// Reads a definition function from its tokens and builds the machine: reading as
/// `read_definition` does, then parsing, validating and splitting its blocks as `build_fsm`
/// does. The machine's description is named by the machine's and the context's type texts
/// and the types' names.
pub fn parse_definition(item: &proc_macro2::TokenStream) -> (r: Result<(DefinitionFn, FsmFnInput, FsmTable), DefinitionError>)
    ensures
        spec_definition(*item) == Err::<DefinitionModel, Option<ParseError>>(None) ==> r matches Err(DefinitionError::Syntax(_)),
        spec_definition(*item) matches Err(Some(e)) ==> r matches Err(DefinitionError::Refused(e2)) && e2 == e,
        spec_definition(*item) matches Ok(m) ==> (r matches Ok((d, _, _)) && d@ == m) || (r matches Err(
            DefinitionError::Declarations(_, d),
        ) && d@ == m),
        r matches Err(DefinitionError::Declarations(e, d)) ==> build_refuses(d.blocks@, e) && !build_must_accept(d.blocks@),
        r matches Ok((d, input, table)) ==> {
            &&& build_accepts(d.blocks@, input.fsm, table)
            &&& input.base.fsm_id@ == type_text(d.fsm_ty)
            &&& input.base.context_id@ == type_text(d.context_ty)
            &&& input.base.type_labels@.map_values(|s: String| s@) == d.types@.map_values(|t: syn::Type| type_label_text(t))
        },
{
    let d = read_definition(item)?;
    match build_fsm(&d.blocks) {
        Ok((fsm, table)) => {
            let base = FsmFnBase {
                fsm_id: type_tokens_text(&d.fsm_ty),
                context_id: type_tokens_text(&d.context_ty),
                type_labels: type_labels(&d.types),
            };
            Ok((d, FsmFnInput { base, fsm }, table))
        },
        Err(e) => Err(DefinitionError::Declarations(e, d)),
    }
}

} // verus!
