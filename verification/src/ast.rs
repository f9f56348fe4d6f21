//! The statement syntax tree: expressions, binary operators with their
//! precedence tiers, column definitions, and the seven statement kinds.
//!
//! Each executable type has a ghost mirror (`SpExpr`, `SpStatement`,
//! ...) holding text as character sequences; the parser model produces
//! mirror values and every parsing routine is proved to return a tree
//! whose view is the model's.

use vstd::prelude::*;

use crate::token::{Keyword, Literal, SpLiteral, Symbol};

verus! {

broadcast use vstd::seq::axiom_seq_index_decreases, vstd::std_specs::vec::axiom_vec_index_decreases, vstd::std_specs::vec::axiom_vec_decreases_to_view;

/// A binary operator of the expression grammar.
#[derive(Clone, Copy, PartialEq, Eq, Structural, Debug)]
pub enum BinaryOperator {
    Add,
    Sub,
    Mul,
    Div,
    Mod,
    Pow,
    Equals,
    NotEquals,
    LessThan,
    LessThanOrEquals,
    GreaterThan,
    GreaterThanOrEquals,
    And,
    Or,
    In,
    Like,
}

impl BinaryOperator {
    /// The operator's tier.  Higher tiers bind less tightly: the
    /// keyword-logical operators sit above the comparisons, those above
    /// the exponent, then the additive and finally the multiplicative
    /// operators just over the factors.
    pub open spec fn spec_precedence(self) -> u8 {
        match self {
            BinaryOperator::And => 5,
            BinaryOperator::Or => 5,
            BinaryOperator::In => 5,
            BinaryOperator::Like => 5,
            BinaryOperator::Equals => 4,
            BinaryOperator::NotEquals => 4,
            BinaryOperator::LessThan => 4,
            BinaryOperator::LessThanOrEquals => 4,
            BinaryOperator::GreaterThan => 4,
            BinaryOperator::GreaterThanOrEquals => 4,
            BinaryOperator::Pow => 3,
            BinaryOperator::Add => 2,
            BinaryOperator::Sub => 2,
            BinaryOperator::Mul => 1,
            BinaryOperator::Div => 1,
            BinaryOperator::Mod => 1,
        }
    }

    /// Executable precedence.
    pub fn precedence(&self) -> (p: u8)
        ensures
            p == self.spec_precedence(),
    {
        match self {
            BinaryOperator::And => 5,
            BinaryOperator::Or => 5,
            BinaryOperator::In => 5,
            BinaryOperator::Like => 5,
            BinaryOperator::Equals => 4,
            BinaryOperator::NotEquals => 4,
            BinaryOperator::LessThan => 4,
            BinaryOperator::LessThanOrEquals => 4,
            BinaryOperator::GreaterThan => 4,
            BinaryOperator::GreaterThanOrEquals => 4,
            BinaryOperator::Pow => 3,
            BinaryOperator::Add => 2,
            BinaryOperator::Sub => 2,
            BinaryOperator::Mul => 1,
            BinaryOperator::Div => 1,
            BinaryOperator::Mod => 1,
        }
    }

    /// The loosest tier; expression parsing starts here.
    pub fn max_precedence() -> (p: u8)
        ensures
            p == 5,
    {
        5
    }

    /// The operator a symbol stands for, if any.
    pub open spec fn spec_of_symbol(s: Symbol) -> Option<BinaryOperator> {
        match s {
            Symbol::Plus => Some(BinaryOperator::Add),
            Symbol::Minus => Some(BinaryOperator::Sub),
            Symbol::Star => Some(BinaryOperator::Mul),
            Symbol::Divide => Some(BinaryOperator::Div),
            Symbol::Carret => Some(BinaryOperator::Pow),
            Symbol::Percent => Some(BinaryOperator::Mod),
            Symbol::Equals => Some(BinaryOperator::Equals),
            Symbol::NotEquals => Some(BinaryOperator::NotEquals),
            Symbol::LessThan => Some(BinaryOperator::LessThan),
            Symbol::LessThanOrEquals => Some(BinaryOperator::LessThanOrEquals),
            Symbol::GreaterThan => Some(BinaryOperator::GreaterThan),
            Symbol::GreaterThanOrEquals => Some(BinaryOperator::GreaterThanOrEquals),
            _ => None,
        }
    }

    /// The operator a symbol stands for at the given tier, if any.
    pub open spec fn spec_match_symbol(s: Symbol, precedence: u8) -> Option<BinaryOperator> {
        match BinaryOperator::spec_of_symbol(s) {
            Some(op) => if op.spec_precedence() == precedence {
                Some(op)
            } else {
                None
            },
            None => None,
        }
    }

    /// Resolve a symbol against the operators of one tier.
    pub fn match_symbol_with_precedence(s: &Symbol, precedence: u8) -> (r: Option<BinaryOperator>)
        ensures
            r == BinaryOperator::spec_match_symbol(*s, precedence),
    {
        let op = match s {
            Symbol::Plus => BinaryOperator::Add,
            Symbol::Minus => BinaryOperator::Sub,
            Symbol::Star => BinaryOperator::Mul,
            Symbol::Divide => BinaryOperator::Div,
            Symbol::Carret => BinaryOperator::Pow,
            Symbol::Percent => BinaryOperator::Mod,
            Symbol::Equals => BinaryOperator::Equals,
            Symbol::NotEquals => BinaryOperator::NotEquals,
            Symbol::LessThan => BinaryOperator::LessThan,
            Symbol::LessThanOrEquals => BinaryOperator::LessThanOrEquals,
            Symbol::GreaterThan => BinaryOperator::GreaterThan,
            Symbol::GreaterThanOrEquals => BinaryOperator::GreaterThanOrEquals,
            _ => {
                return None;
            },
        };
        if op.precedence() == precedence {
            Some(op)
        } else {
            None
        }
    }

    /// The keyword-logical operator of one tier, if the keyword is one.
    pub open spec fn spec_match_keyword(k: Keyword, precedence: u8) -> Option<BinaryOperator> {
        let op = match k {
            Keyword::And => Some(BinaryOperator::And),
            Keyword::Or => Some(BinaryOperator::Or),
            Keyword::In => Some(BinaryOperator::In),
            Keyword::Like => Some(BinaryOperator::Like),
            _ => None,
        };
        match op {
            Some(o) => if o.spec_precedence() == precedence {
                Some(o)
            } else {
                None
            },
            None => None,
        }
    }

    /// Resolve a keyword against the operators of one tier.
    pub fn match_keyword_with_precedence(k: &Keyword, precedence: u8) -> (r: Option<BinaryOperator>)
        ensures
            r == BinaryOperator::spec_match_keyword(*k, precedence),
    {
        let op = match k {
            Keyword::And => BinaryOperator::And,
            Keyword::Or => BinaryOperator::Or,
            Keyword::In => BinaryOperator::In,
            Keyword::Like => BinaryOperator::Like,
            _ => {
                return None;
            },
        };
        if op.precedence() == precedence {
            Some(op)
        } else {
            None
        }
    }
}

/// A column's declared type.
#[derive(Clone, Copy, PartialEq, Eq, Structural, Debug)]
pub enum Datatype {
    Integer,
    Float,
    String,
    Boolean,
    DateTime,
}

impl Datatype {
    /// The datatype a keyword names, if any.
    pub open spec fn spec_from_keyword(k: Keyword) -> Option<Datatype> {
        match k {
            Keyword::Int => Some(Datatype::Integer),
            Keyword::Float => Some(Datatype::Float),
            Keyword::String => Some(Datatype::String),
            Keyword::Boolean => Some(Datatype::Boolean),
            Keyword::DateTime => Some(Datatype::DateTime),
            _ => None,
        }
    }

    /// Resolve a keyword to the datatype it names.
    pub fn from_keyword(k: Keyword) -> (r: Option<Datatype>)
        ensures
            r == Datatype::spec_from_keyword(k),
    {
        match k {
            Keyword::Int => Some(Datatype::Integer),
            Keyword::Float => Some(Datatype::Float),
            Keyword::String => Some(Datatype::String),
            Keyword::Boolean => Some(Datatype::Boolean),
            Keyword::DateTime => Some(Datatype::DateTime),
            _ => None,
        }
    }
}

/// An expression of the statement language.
#[derive(PartialEq, Debug)]
pub enum Expression {
    Wildcard,
    Literal(Literal),
    Identifier(String),
    FunctionCall { ident: String, arguments: Vec<Expression> },
    Binary { left: Box<Expression>, operator: BinaryOperator, right: Box<Expression> },
    Negation(Box<Expression>),
}

/// Ghost mirror of `Expression`.
pub enum SpExpr {
    Wildcard,
    Literal(SpLiteral),
    Identifier(Seq<char>),
    FunctionCall { ident: Seq<char>, arguments: Seq<SpExpr> },
    Binary { left: Box<SpExpr>, operator: BinaryOperator, right: Box<SpExpr> },
    Negation(Box<SpExpr>),
}

/// View of one expression.
pub open spec fn spec_expr_view(e: Expression) -> SpExpr
    decreases e,
{
    match e {
        Expression::Wildcard => SpExpr::Wildcard,
        Expression::Literal(l) => SpExpr::Literal(l@),
        Expression::Identifier(s) => SpExpr::Identifier(s@),
        Expression::FunctionCall { ident, arguments } => SpExpr::FunctionCall {
            ident: ident@,
            arguments: spec_exprs_view(arguments@),
        },
        Expression::Binary { left, operator, right } => SpExpr::Binary {
            left: Box::new(spec_expr_view(*left)),
            operator,
            right: Box::new(spec_expr_view(*right)),
        },
        Expression::Negation(inner) => SpExpr::Negation(Box::new(spec_expr_view(*inner))),
    }
}

/// View of an expression sequence, element by element.
pub open spec fn spec_exprs_view(s: Seq<Expression>) -> Seq<SpExpr>
    decreases s,
{
    if s.len() == 0 {
        Seq::empty()
    } else {
        seq![spec_expr_view(s[0])] + spec_exprs_view(s.drop_first())
    }
}

impl View for Expression {
    type V = SpExpr;

    open spec fn view(&self) -> SpExpr {
        spec_expr_view(*self)
    }
}

/// A column definition: its name and declared type.
#[derive(Clone, PartialEq, Debug)]
pub struct Column {
    pub name: String,
    pub data_type: Datatype,
}

/// Ghost mirror of `Column`.
pub struct SpColumn {
    pub name: Seq<char>,
    pub data_type: Datatype,
}

impl View for Column {
    type V = SpColumn;

    open spec fn view(&self) -> SpColumn {
        SpColumn { name: self.name@, data_type: self.data_type }
    }
}

/// One operation of an ALTER TABLE statement.
#[derive(Clone, PartialEq, Debug)]
pub enum AlterType {
    Add(Column),
    Drop(String),
    Modify(Column),
    Rename { from: String, to: String },
}

/// Ghost mirror of `AlterType`.
pub enum SpAlterType {
    Add(SpColumn),
    Drop(Seq<char>),
    Modify(SpColumn),
    Rename { from: Seq<char>, to: Seq<char> },
}

impl View for AlterType {
    type V = SpAlterType;

    open spec fn view(&self) -> SpAlterType {
        match self {
            AlterType::Add(c) => SpAlterType::Add(c@),
            AlterType::Drop(n) => SpAlterType::Drop(n@),
            AlterType::Modify(c) => SpAlterType::Modify(c@),
            AlterType::Rename { from, to } => SpAlterType::Rename { from: from@, to: to@ },
        }
    }
}

/// One column assignment of an UPDATE statement.
#[derive(PartialEq, Debug)]
pub struct UpdateSet {
    pub column: String,
    pub value: Expression,
}

/// Ghost mirror of `UpdateSet`.
pub struct SpUpdateSet {
    pub column: Seq<char>,
    pub value: SpExpr,
}

impl View for UpdateSet {
    type V = SpUpdateSet;

    open spec fn view(&self) -> SpUpdateSet {
        SpUpdateSet { column: self.column@, value: self.value@ }
    }
}

/// A parsed statement.
#[derive(PartialEq, Debug)]
pub enum Statement {
    Create { table_name: String, columns: Vec<Column> },
    Alter { table_name: String, alter_types: Vec<AlterType> },
    Drop { table_name: String },
    Insert { table_name: String, columns: Option<Vec<String>>, values: Vec<Expression> },
    Update { table_name: String, set: Vec<UpdateSet>, predicate: Option<Expression> },
    Delete { table_name: String, predicate: Option<Expression> },
    Select { select_expressions: Vec<Expression>, from: Option<String>, predicate: Option<Expression> },
}

/// Ghost mirror of `Statement`.
pub enum SpStatement {
    Create { table_name: Seq<char>, columns: Seq<SpColumn> },
    Alter { table_name: Seq<char>, alter_types: Seq<SpAlterType> },
    Drop { table_name: Seq<char> },
    Insert { table_name: Seq<char>, columns: Option<Seq<Seq<char>>>, values: Seq<SpExpr> },
    Update { table_name: Seq<char>, set: Seq<SpUpdateSet>, predicate: Option<SpExpr> },
    Delete { table_name: Seq<char>, predicate: Option<SpExpr> },
    Select {
        select_expressions: Seq<SpExpr>,
        from: Option<Seq<char>>,
        predicate: Option<SpExpr>,
    },
}

/// View of a sequence of column names.
pub open spec fn spec_idents_view(s: Seq<String>) -> Seq<Seq<char>> {
    s.map(|i: int, x: String| x@)
}

/// View of a sequence of column definitions.
pub open spec fn spec_columns_view(s: Seq<Column>) -> Seq<SpColumn> {
    s.map(|i: int, c: Column| c@)
}

/// View of a sequence of alter operations.
pub open spec fn spec_alters_view(s: Seq<AlterType>) -> Seq<SpAlterType> {
    s.map(|i: int, a: AlterType| a@)
}

/// View of a sequence of update assignments.
pub open spec fn spec_updates_view(s: Seq<UpdateSet>) -> Seq<SpUpdateSet> {
    s.map(|i: int, u: UpdateSet| u@)
}

/// View of an optional predicate.
pub open spec fn spec_opt_expr_view(e: Option<Expression>) -> Option<SpExpr> {
    match e {
        Some(e) => Some(e@),
        None => None,
    }
}

/// View of an optional name.
pub open spec fn spec_opt_name_view(n: Option<String>) -> Option<Seq<char>> {
    match n {
        Some(s) => Some(s@),
        None => None,
    }
}

impl View for Statement {
    type V = SpStatement;

    open spec fn view(&self) -> SpStatement {
        match self {
            Statement::Create { table_name, columns } => SpStatement::Create {
                table_name: table_name@,
                columns: spec_columns_view(columns@),
            },
            Statement::Alter { table_name, alter_types } => SpStatement::Alter {
                table_name: table_name@,
                alter_types: spec_alters_view(alter_types@),
            },
            Statement::Drop { table_name } => SpStatement::Drop { table_name: table_name@ },
            Statement::Insert { table_name, columns, values } => SpStatement::Insert {
                table_name: table_name@,
                columns: match columns {
                    Some(cs) => Some(spec_idents_view(cs@)),
                    None => None,
                },
                values: spec_exprs_view(values@),
            },
            Statement::Update { table_name, set, predicate } => SpStatement::Update {
                table_name: table_name@,
                set: spec_updates_view(set@),
                predicate: spec_opt_expr_view(*predicate),
            },
            Statement::Delete { table_name, predicate } => SpStatement::Delete {
                table_name: table_name@,
                predicate: spec_opt_expr_view(*predicate),
            },
            Statement::Select { select_expressions, from, predicate } => SpStatement::Select {
                select_expressions: spec_exprs_view(select_expressions@),
                from: spec_opt_name_view(*from),
                predicate: spec_opt_expr_view(*predicate),
            },
        }
    }
}

} // verus!
