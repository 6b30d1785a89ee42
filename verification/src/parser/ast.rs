//! The syntax tree, and the mathematical trees that the contracts speak of.
//!
//! Each executable node has a view of the same shape in which a `String` is
//! a `Seq<char>`, a `Vec` a `Seq` and an `i64` an `int`: [`Stmt`], [`Expr`]
//! and [`Prim`].

use vstd::prelude::*;
use vstd::string::*;

verus! {

/// A whole program: statements, in order.
#[derive(Debug, PartialEq)]
pub struct Program {
    pub statements: Vec<Statement>,
}

/// One statement.
#[derive(Debug, PartialEq)]
pub enum Statement {
    Assign(Assign),
    If(If),
    Expression(Expression),
}

/// `= name value`.
#[derive(Debug, PartialEq)]
pub struct Assign {
    pub name: Identifier,
    pub value: Expression,
}

/// `if condition { .. } else { .. }`, the second block being optional.
#[derive(Debug, PartialEq)]
pub struct If {
    pub condition: Expression,
    pub consequence: Vec<Box<Statement>>,
    pub alternative: Option<Vec<Box<Statement>>>,
}

/// One expression.
#[derive(Debug, PartialEq)]
pub enum Expression {
    Primitive(Primitive),
    Identifier(Identifier),
    Operator(Operator),
    Function(Function),
    Call(Call),
    And(And),
    Or(Or),
}

/// An atomic value. A float is held as its decimal text: the library never
/// computes with it.
#[derive(Debug, PartialEq)]
pub enum Primitive {
    Integer(i64),
    Float(String),
    String(String),
    Boolean(bool),
    Null,
}

/// A name.
#[derive(Debug, PartialEq)]
pub struct Identifier {
    pub value: String,
}

/// An operator applied to any number of operands.
#[derive(Debug, PartialEq)]
pub struct Operator {
    pub kind: OperatorKind,
    pub args: Vec<Expression>,
}

/// Which operator.
#[derive(Clone, Copy, Debug, PartialEq, Eq, Structural)]
pub enum OperatorKind {
    Equal,
    Add,
    Subtract,
    Multiply,
    Divide,
    Inverse,
}

/// A function literal: parameter names and a body. It captures nothing.
#[derive(Debug, PartialEq)]
pub struct Function {
    pub params: Vec<Identifier>,
    pub body: Vec<Statement>,
}

/// A call of a named function.
#[derive(Debug, PartialEq)]
pub struct Call {
    pub name: Identifier,
    pub args: Vec<Expression>,
}

/// `&& a b ..`.
#[derive(Debug, PartialEq)]
pub struct And(pub Vec<Expression>);

/// `|| a b ..`.
#[derive(Debug, PartialEq)]
pub struct Or(pub Vec<Expression>);

/// The mathematical form of a [`Primitive`].
pub enum Prim {
    Integer(int),
    Float(Seq<char>),
    String(Seq<char>),
    Boolean(bool),
    Null,
}

/// The mathematical form of an [`Expression`].
pub enum Expr {
    Primitive(Prim),
    Identifier(Seq<char>),
    Operator(OperatorKind, Seq<Expr>),
    Function(Seq<Seq<char>>, Seq<Stmt>),
    Call(Seq<char>, Seq<Expr>),
    And(Seq<Expr>),
    Or(Seq<Expr>),
}

/// The mathematical form of a [`Statement`].
pub enum Stmt {
    Assign(Seq<char>, Expr),
    If(Expr, Seq<Stmt>, Option<Seq<Stmt>>),
    Expression(Expr),
}

/// The view of an expression.
pub open spec fn expr_view(e: Expression) -> Expr
    decreases e,
{
    match e {
        Expression::Primitive(p) => Expr::Primitive(p@),
        Expression::Identifier(i) => Expr::Identifier(i@),
        Expression::Operator(o) => Expr::Operator(o.kind, exprs_view(o.args@)),
        Expression::Function(f) => Expr::Function(names_view(f.params@), stmts_view(f.body@)),
        Expression::Call(c) => Expr::Call(c.name@, exprs_view(c.args@)),
        Expression::And(a) => Expr::And(exprs_view(a.0@)),
        Expression::Or(o) => Expr::Or(exprs_view(o.0@)),
    }
}

/// The views of a run of expressions.
pub open spec fn exprs_view(es: Seq<Expression>) -> Seq<Expr>
    decreases es,
{
    Seq::new(
        es.len(),
        |i: int|
            if 0 <= i < es.len() {
                expr_view(es[i])
            } else {
                arbitrary()
            },
    )
}

/// The view of a statement.
pub open spec fn stmt_view(s: Statement) -> Stmt
    decreases s,
{
    match s {
        Statement::Assign(a) => Stmt::Assign(a.name@, expr_view(a.value)),
        Statement::If(i) => Stmt::If(
            expr_view(i.condition),
            boxed_stmts_view(i.consequence@),
            match i.alternative {
                Some(alt) => Some(boxed_stmts_view(alt@)),
                None => None,
            },
        ),
        Statement::Expression(e) => Stmt::Expression(expr_view(e)),
    }
}

/// The views of a run of statements.
pub open spec fn stmts_view(ss: Seq<Statement>) -> Seq<Stmt>
    decreases ss,
{
    Seq::new(
        ss.len(),
        |i: int|
            if 0 <= i < ss.len() {
                stmt_view(ss[i])
            } else {
                arbitrary()
            },
    )
}

/// The views of the statements of a block.
pub open spec fn boxed_stmts_view(ss: Seq<Box<Statement>>) -> Seq<Stmt>
    decreases ss,
{
    Seq::new(
        ss.len(),
        |i: int|
            if 0 <= i < ss.len() {
                stmt_view(*ss[i])
            } else {
                arbitrary()
            },
    )
}

/// The views of a run of names.
pub open spec fn names_view(ns: Seq<Identifier>) -> Seq<Seq<char>> {
    Seq::new(ns.len(), |i: int| ns[i]@)
}

impl View for Primitive {
    type V = Prim;

    open spec fn view(&self) -> Prim {
        match self {
            Primitive::Integer(v) => Prim::Integer(*v as int),
            Primitive::Float(v) => Prim::Float(v@),
            Primitive::String(v) => Prim::String(v@),
            Primitive::Boolean(v) => Prim::Boolean(*v),
            Primitive::Null => Prim::Null,
        }
    }
}

impl View for Identifier {
    type V = Seq<char>;

    open spec fn view(&self) -> Seq<char> {
        self.value@
    }
}

impl View for Expression {
    type V = Expr;

    open spec fn view(&self) -> Expr {
        expr_view(*self)
    }
}

impl View for Statement {
    type V = Stmt;

    open spec fn view(&self) -> Stmt {
        stmt_view(*self)
    }
}

impl View for Function {
    type V = Expr;

    open spec fn view(&self) -> Expr {
        Expr::Function(names_view(self.params@), stmts_view(self.body@))
    }
}

impl View for Operator {
    type V = Expr;

    open spec fn view(&self) -> Expr {
        Expr::Operator(self.kind, exprs_view(self.args@))
    }
}

impl View for Call {
    type V = Expr;

    open spec fn view(&self) -> Expr {
        Expr::Call(self.name@, exprs_view(self.args@))
    }
}

impl View for And {
    type V = Expr;

    open spec fn view(&self) -> Expr {
        Expr::And(exprs_view(self.0@))
    }
}

impl View for Or {
    type V = Expr;

    open spec fn view(&self) -> Expr {
        Expr::Or(exprs_view(self.0@))
    }
}

impl View for Assign {
    type V = Stmt;

    open spec fn view(&self) -> Stmt {
        Stmt::Assign(self.name@, expr_view(self.value))
    }
}

impl View for If {
    type V = Stmt;

    open spec fn view(&self) -> Stmt {
        Stmt::If(
            expr_view(self.condition),
            boxed_stmts_view(self.consequence@),
            match self.alternative {
                Some(alt) => Some(boxed_stmts_view(alt@)),
                None => None,
            },
        )
    }
}

/// A copy of a primitive.
pub fn copy_primitive(p: &Primitive) -> (r: Primitive)
    ensures
        r@ == p@,
{
    match p {
        Primitive::Integer(v) => Primitive::Integer(*v),
        Primitive::Float(v) => Primitive::Float(v.clone()),
        Primitive::String(v) => Primitive::String(v.clone()),
        Primitive::Boolean(v) => Primitive::Boolean(*v),
        Primitive::Null => Primitive::Null,
    }
}

/// A copy of a name.
pub fn copy_identifier(i: &Identifier) -> (r: Identifier)
    ensures
        r@ == i@,
{
    Identifier { value: i.value.clone() }
}

/// A copy of a run of names.
pub fn copy_identifiers(ns: &Vec<Identifier>) -> (r: Vec<Identifier>)
    ensures
        names_view(r@) == names_view(ns@),
{
    let mut r: Vec<Identifier> = Vec::new();
    let mut i: usize = 0;
    while i < ns.len()
        invariant
            i <= ns.len(),
            r@.len() == i,
            forall|j: int| 0 <= j < i ==> (#[trigger] r@[j])@ == ns@[j]@,
        decreases ns.len() - i,
    {
        r.push(copy_identifier(&ns[i]));
        i = i + 1;
    }
    assert(names_view(r@) =~= names_view(ns@));
    r
}

/// A copy of an expression.
pub fn copy_expression(e: &Expression) -> (r: Expression)
    ensures
        r@ == e@,
    decreases e,
{
    match e {
        Expression::Primitive(p) => Expression::Primitive(copy_primitive(p)),
        Expression::Identifier(i) => Expression::Identifier(copy_identifier(i)),
        Expression::Operator(o) => Expression::Operator(
            Operator { kind: o.kind, args: copy_expressions(&o.args) },
        ),
        Expression::Function(f) => Expression::Function(
            Function { params: copy_identifiers(&f.params), body: copy_statements(&f.body) },
        ),
        Expression::Call(c) => Expression::Call(
            Call { name: copy_identifier(&c.name), args: copy_expressions(&c.args) },
        ),
        Expression::And(a) => Expression::And(And(copy_expressions(&a.0))),
        Expression::Or(o) => Expression::Or(Or(copy_expressions(&o.0))),
    }
}

/// A copy of a run of expressions.
pub fn copy_expressions(es: &Vec<Expression>) -> (r: Vec<Expression>)
    ensures
        exprs_view(r@) == exprs_view(es@),
    decreases es,
{
    let mut r: Vec<Expression> = Vec::new();
    let mut i: usize = 0;
    while i < es.len()
        invariant
            i <= es.len(),
            r@.len() == i,
            forall|j: int| 0 <= j < i ==> (#[trigger] r@[j])@ == es@[j]@,
        decreases es.len() - i,
    {
        r.push(copy_expression(&es[i]));
        i = i + 1;
    }
    assert(exprs_view(r@) =~= exprs_view(es@));
    r
}

/// A copy of a statement.
pub fn copy_statement(s: &Statement) -> (r: Statement)
    ensures
        r@ == s@,
    decreases s,
{
    match s {
        Statement::Assign(a) => Statement::Assign(
            Assign { name: copy_identifier(&a.name), value: copy_expression(&a.value) },
        ),
        Statement::If(i) => Statement::If(
            If {
                condition: copy_expression(&i.condition),
                consequence: copy_block(&i.consequence),
                alternative: match &i.alternative {
                    Some(alt) => Some(copy_block(alt)),
                    None => None,
                },
            },
        ),
        Statement::Expression(e) => Statement::Expression(copy_expression(e)),
    }
}

/// A copy of a run of statements.
pub fn copy_statements(ss: &Vec<Statement>) -> (r: Vec<Statement>)
    ensures
        stmts_view(r@) == stmts_view(ss@),
    decreases ss,
{
    let mut r: Vec<Statement> = Vec::new();
    let mut i: usize = 0;
    while i < ss.len()
        invariant
            i <= ss.len(),
            r@.len() == i,
            forall|j: int| 0 <= j < i ==> (#[trigger] r@[j])@ == ss@[j]@,
        decreases ss.len() - i,
    {
        r.push(copy_statement(&ss[i]));
        i = i + 1;
    }
    assert(stmts_view(r@) =~= stmts_view(ss@));
    r
}

/// A copy of the statements of a block.
pub fn copy_block(ss: &Vec<Box<Statement>>) -> (r: Vec<Box<Statement>>)
    ensures
        boxed_stmts_view(r@) == boxed_stmts_view(ss@),
    decreases ss,
{
    let mut r: Vec<Box<Statement>> = Vec::new();
    let mut i: usize = 0;
    while i < ss.len()
        invariant
            i <= ss.len(),
            r@.len() == i,
            forall|j: int| 0 <= j < i ==> (*#[trigger] r@[j])@ == (*ss@[j])@,
        decreases ss.len() - i,
    {
        r.push(Box::new(copy_statement(&ss[i])));
        i = i + 1;
    }
    assert(boxed_stmts_view(r@) =~= boxed_stmts_view(ss@));
    r
}

impl Clone for Primitive {
    fn clone(&self) -> (r: Self)
        ensures
            r@ == self@,
    {
        copy_primitive(self)
    }
}

impl Clone for Identifier {
    fn clone(&self) -> (r: Self)
        ensures
            r@ == self@,
    {
        copy_identifier(self)
    }
}

impl Clone for Expression {
    fn clone(&self) -> (r: Self)
        ensures
            r@ == self@,
    {
        copy_expression(self)
    }
}

impl Clone for Statement {
    fn clone(&self) -> (r: Self)
        ensures
            r@ == self@,
    {
        copy_statement(self)
    }
}

impl Clone for Operator {
    fn clone(&self) -> (r: Self)
        ensures
            r@ == self@,
    {
        Operator { kind: self.kind, args: copy_expressions(&self.args) }
    }
}

impl Clone for Call {
    fn clone(&self) -> (r: Self)
        ensures
            r@ == self@,
    {
        Call { name: copy_identifier(&self.name), args: copy_expressions(&self.args) }
    }
}

impl Clone for And {
    fn clone(&self) -> (r: Self)
        ensures
            r@ == self@,
    {
        And(copy_expressions(&self.0))
    }
}

impl Clone for Or {
    fn clone(&self) -> (r: Self)
        ensures
            r@ == self@,
    {
        Or(copy_expressions(&self.0))
    }
}

impl Clone for Assign {
    fn clone(&self) -> (r: Self)
        ensures
            r@ == self@,
    {
        Assign { name: copy_identifier(&self.name), value: copy_expression(&self.value) }
    }
}

impl Clone for If {
    fn clone(&self) -> (r: Self)
        ensures
            r@ == self@,
    {
        If {
            condition: copy_expression(&self.condition),
            consequence: copy_block(&self.consequence),
            alternative: match &self.alternative {
                Some(alt) => Some(copy_block(alt)),
                None => None,
            },
        }
    }
}

impl Clone for Function {
    fn clone(&self) -> (r: Self)
        ensures
            r@ == self@,
    {
        Function { params: copy_identifiers(&self.params), body: copy_statements(&self.body) }
    }
}

/// One more expression behind a run of them.
pub proof fn lemma_exprs_push(es: Seq<Expression>, e: Expression)
    ensures
        exprs_view(es.push(e)) == exprs_view(es).push(e@),
{
    assert(exprs_view(es.push(e)) =~= exprs_view(es).push(e@));
}

/// One more statement behind a run of them.
pub proof fn lemma_stmts_push(ss: Seq<Statement>, s: Statement)
    ensures
        stmts_view(ss.push(s)) == stmts_view(ss).push(s@),
{
    assert(stmts_view(ss.push(s)) =~= stmts_view(ss).push(s@));
}

/// One more statement behind those of a block.
pub proof fn lemma_boxed_stmts_push(ss: Seq<Box<Statement>>, s: Box<Statement>)
    ensures
        boxed_stmts_view(ss.push(s)) == boxed_stmts_view(ss).push((*s)@),
{
    assert(boxed_stmts_view(ss.push(s)) =~= boxed_stmts_view(ss).push((*s)@));
}

/// One more name behind a run of them.
pub proof fn lemma_names_push(ns: Seq<Identifier>, n: Identifier)
    ensures
        names_view(ns.push(n)) == names_view(ns).push(n@),
{
    assert(names_view(ns.push(n)) =~= names_view(ns).push(n@));
}

impl View for Program {
    type V = Seq<Stmt>;

    open spec fn view(&self) -> Seq<Stmt> {
        stmts_view(self.statements@)
    }
}

} // verus!
