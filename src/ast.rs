//! The syntax tree of one module, as far as the rewrite reads it, and its spec-level view.
use vstd::prelude::*;

verus! {

/// An expression.
#[derive(Debug, PartialEq)]
pub enum Expr {
    Ident(String),
    Str(String),
    /// A numeric literal, by its source text.
    Num(String),
    Null,
    /// A meta property such as `import.meta`.
    MetaProp(String, String),
    /// `obj.prop`.
    Member(Box<Expr>, String),
    /// `obj[key]`.
    Index(Box<Expr>, Box<Expr>),
    /// A call: callee and arguments.
    Call(Box<Expr>, Vec<Expr>),
    /// A function (`arrow` for an arrow function) with its exact source text and its body.
    Func { arrow: bool, text: String, body: Vec<Stmt> },
    /// Any other expression: a tag naming its form, and its operands in source order.
    Op(String, Vec<Expr>),
}

/// A binding pattern.
#[derive(Debug, PartialEq, Clone)]
pub enum Pat {
    Ident(String),
    /// `{ key: local, name }`: each local name, with the property it reads when that differs.
    Object(Vec<(String, Option<String>)>),
}

/// A statement.
#[derive(Debug, PartialEq)]
pub enum Stmt {
    Expr(Expr),
    /// `const pat = init`.
    Const(Pat, Expr),
    Return(Expr),
    Empty,
}

/// One binding of an import declaration.
#[derive(Debug, PartialEq, Clone)]
pub enum ImportSpecifier {
    /// `{ imported as local }`, or `{ local }` when `imported` is absent.
    Named { local: String, imported: Option<String> },
    /// `local` for the default export.
    Default(String),
    /// `* as local`.
    Namespace(String),
}

/// One binding of an export-from declaration.
#[derive(Debug, PartialEq, Clone)]
pub enum ExportSpecifier {
    /// `{ orig as exported }`, or `{ orig }` when `exported` is absent.
    Named { orig: String, exported: Option<String> },
    /// `exported` for the default export.
    Default(String),
    /// `* as name`.
    Namespace(String),
}

/// A top-level item of a module.
#[derive(Debug, PartialEq)]
#[allow(inconsistent_fields)]
pub enum ModuleItem {
    /// `import ... from src`.
    Import { specifiers: Vec<ImportSpecifier>, src: String, type_only: bool },
    /// `export { ... } from src`.
    ExportNamed { specifiers: Vec<ExportSpecifier>, src: String, type_only: bool },
    /// `export * from src`.
    ExportAll(String),
    /// `export const pat = init`.
    ExportConst(Pat, Expr),
    Stmt(Stmt),
}

/// The value of an expression.
pub enum ExprV {
    Ident(Seq<char>),
    Str(Seq<char>),
    Num(Seq<char>),
    Null,
    MetaProp(Seq<char>, Seq<char>),
    Member(Box<ExprV>, Seq<char>),
    Index(Box<ExprV>, Box<ExprV>),
    Call(Box<ExprV>, Seq<ExprV>),
    Func { arrow: bool, text: Seq<char>, body: Seq<StmtV> },
    Op(Seq<char>, Seq<ExprV>),
}

/// The value of a pattern.
pub enum PatV {
    Ident(Seq<char>),
    Object(Seq<(Seq<char>, Option<Seq<char>>)>),
}

/// The value of a statement.
pub enum StmtV {
    Expr(ExprV),
    Const(PatV, ExprV),
    Return(ExprV),
    Empty,
}

/// The value of an import binding.
pub enum ImportSpecV {
    Named { local: Seq<char>, imported: Option<Seq<char>> },
    Default(Seq<char>),
    Namespace(Seq<char>),
}

/// The value of an export binding.
pub enum ExportSpecV {
    Named { orig: Seq<char>, exported: Option<Seq<char>> },
    Default(Seq<char>),
    Namespace(Seq<char>),
}

/// The value of a top-level item.
#[allow(inconsistent_fields)]
pub enum ItemV {
    Import { specifiers: Seq<ImportSpecV>, src: Seq<char>, type_only: bool },
    ExportNamed { specifiers: Seq<ExportSpecV>, src: Seq<char>, type_only: bool },
    ExportAll(Seq<char>),
    ExportConst(PatV, ExprV),
    Stmt(StmtV),
}

pub open spec fn opt_view(o: Option<String>) -> Option<Seq<char>> {
    match o {
        Some(s) => Some(s@),
        None => None,
    }
}

pub open spec fn names_view(s: Seq<(String, Option<String>)>) -> Seq<(Seq<char>, Option<Seq<char>>)> {
    s.map_values(|x: (String, Option<String>)| (x.0@, opt_view(x.1)))
}

pub open spec fn pat_view(p: Pat) -> PatV {
    match p {
        Pat::Ident(s) => PatV::Ident(s@),
        Pat::Object(ps) => PatV::Object(names_view(ps@)),
    }
}

pub open spec fn expr_view(e: Expr) -> ExprV
    decreases e,
{
    match e {
        Expr::Ident(s) => ExprV::Ident(s@),
        Expr::Str(s) => ExprV::Str(s@),
        Expr::Num(s) => ExprV::Num(s@),
        Expr::Null => ExprV::Null,
        Expr::MetaProp(a, b) => ExprV::MetaProp(a@, b@),
        Expr::Member(o, p) => ExprV::Member(Box::new(expr_view(*o)), p@),
        Expr::Index(o, k) => ExprV::Index(Box::new(expr_view(*o)), Box::new(expr_view(*k))),
        Expr::Call(c, args) => ExprV::Call(Box::new(expr_view(*c)), exprs_view(args@)),
        Expr::Func { arrow, text, body } => ExprV::Func {
            arrow,
            text: text@,
            body: stmts_view(body@),
        },
        Expr::Op(t, xs) => ExprV::Op(t@, exprs_view(xs@)),
    }
}

pub open spec fn exprs_view(s: Seq<Expr>) -> Seq<ExprV>
    decreases s,
{
    if s.len() == 0 {
        Seq::empty()
    } else {
        exprs_view(s.drop_last()).push(expr_view(s.last()))
    }
}

pub open spec fn stmt_view(s: Stmt) -> StmtV
    decreases s,
{
    match s {
        Stmt::Expr(e) => StmtV::Expr(expr_view(e)),
        Stmt::Const(p, e) => StmtV::Const(pat_view(p), expr_view(e)),
        Stmt::Return(e) => StmtV::Return(expr_view(e)),
        Stmt::Empty => StmtV::Empty,
    }
}

pub open spec fn stmts_view(s: Seq<Stmt>) -> Seq<StmtV>
    decreases s,
{
    if s.len() == 0 {
        Seq::empty()
    } else {
        stmts_view(s.drop_last()).push(stmt_view(s.last()))
    }
}

pub open spec fn import_spec_view(s: ImportSpecifier) -> ImportSpecV {
    match s {
        ImportSpecifier::Named { local, imported } => ImportSpecV::Named {
            local: local@,
            imported: opt_view(imported),
        },
        ImportSpecifier::Default(l) => ImportSpecV::Default(l@),
        ImportSpecifier::Namespace(l) => ImportSpecV::Namespace(l@),
    }
}

pub open spec fn export_spec_view(s: ExportSpecifier) -> ExportSpecV {
    match s {
        ExportSpecifier::Named { orig, exported } => ExportSpecV::Named {
            orig: orig@,
            exported: opt_view(exported),
        },
        ExportSpecifier::Default(l) => ExportSpecV::Default(l@),
        ExportSpecifier::Namespace(l) => ExportSpecV::Namespace(l@),
    }
}

pub open spec fn item_view(i: ModuleItem) -> ItemV {
    match i {
        ModuleItem::Import { specifiers, src, type_only } => ItemV::Import {
            specifiers: specifiers@.map_values(|s: ImportSpecifier| import_spec_view(s)),
            src: src@,
            type_only,
        },
        ModuleItem::ExportNamed { specifiers, src, type_only } => ItemV::ExportNamed {
            specifiers: specifiers@.map_values(|s: ExportSpecifier| export_spec_view(s)),
            src: src@,
            type_only,
        },
        ModuleItem::ExportAll(s) => ItemV::ExportAll(s@),
        ModuleItem::ExportConst(p, e) => ItemV::ExportConst(pat_view(p), expr_view(e)),
        ModuleItem::Stmt(s) => ItemV::Stmt(stmt_view(s)),
    }
}

pub open spec fn items_view(s: Seq<ModuleItem>) -> Seq<ItemV> {
    s.map_values(|i: ModuleItem| item_view(i))
}

} // verus!
