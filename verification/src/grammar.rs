//! The syntax tree, the values that a program computes, and the table of
//! declarations that every block owns. Each type has a mathematical model,
//! its view, in which texts are sequences of characters, lists are sequences
//! and a table is a map.

use vstd::prelude::*;

verus! {

/// The binary operators of the language.
#[derive(Clone, Copy, Debug, PartialEq, Eq, Structural)]
pub enum Operator {
    Plus,
    Minus,
    Division,
    Multiplication,
    Modulo,
    Equal,
    NotEqual,
    Inferior,
    InfOrEqual,
    Superior,
    SupOrEqual,
    And,
    Or,
}

/// A value at run time.
#[derive(Debug, PartialEq, Eq)]
pub enum Value {
    Integer(i64),
    String(String),
    Bool(bool),
}

/// The model of a `Value`.
pub enum ValueModel {
    Integer(i64),
    Text(Seq<char>),
    Bool(bool),
}

impl View for Value {
    type V = ValueModel;

    open spec fn view(&self) -> ValueModel {
        match self {
            Value::Integer(n) => ValueModel::Integer(*n),
            Value::String(s) => ValueModel::Text(s@),
            Value::Bool(b) => ValueModel::Bool(*b),
        }
    }
}

impl Clone for Value {
    fn clone(&self) -> (r: Self)
        ensures
            r == *self,
    {
        match self {
            Value::Integer(n) => Value::Integer(*n),
            Value::String(s) => Value::String(s.clone()),
            Value::Bool(b) => Value::Bool(*b),
        }
    }
}

/// A declared name, with the value it holds once one was assigned.
#[derive(Debug, PartialEq, Eq)]
pub struct Identifier {
    pub name: String,
    pub value: Option<Value>,
}

/// The model of an `Identifier`.
pub struct IdentifierModel {
    pub name: Seq<char>,
    pub value: Option<ValueModel>,
}

/// The model of an optional value.
pub open spec fn value_model(value: Option<Value>) -> Option<ValueModel> {
    match value {
        Some(v) => Some(v@),
        None => None,
    }
}

impl View for Identifier {
    type V = IdentifierModel;

    open spec fn view(&self) -> IdentifierModel {
        IdentifierModel { name: self.name@, value: value_model(self.value) }
    }
}

impl Clone for Identifier {
    fn clone(&self) -> (r: Self)
        ensures
            r == *self,
    {
        Identifier {
            name: self.name.clone(),
            value: match &self.value {
                Some(v) => Some(v.clone()),
                None => None,
            },
        }
    }
}

/// The smallest operand of an expression.
#[derive(Debug, PartialEq, Eq)]
pub enum Term {
    Integer(i64),
    String(String),
    Bool(bool),
    Identifier(Identifier),
}

/// The model of a `Term`.
pub enum TermModel {
    Integer(i64),
    Text(Seq<char>),
    Bool(bool),
    Identifier(IdentifierModel),
}

impl View for Term {
    type V = TermModel;

    open spec fn view(&self) -> TermModel {
        match self {
            Term::Integer(n) => TermModel::Integer(*n),
            Term::String(s) => TermModel::Text(s@),
            Term::Bool(b) => TermModel::Bool(*b),
            Term::Identifier(id) => TermModel::Identifier(id@),
        }
    }
}

impl Clone for Term {
    fn clone(&self) -> (r: Self)
        ensures
            r == *self,
    {
        match self {
            Term::Integer(n) => Term::Integer(*n),
            Term::String(s) => Term::String(s.clone()),
            Term::Bool(b) => Term::Bool(*b),
            Term::Identifier(id) => Term::Identifier(id.clone()),
        }
    }
}

/// A term, or an operation on two expressions.
#[derive(Debug, PartialEq, Eq)]
pub enum Expression {
    Operation(Box<Operation>),
    Term(Term),
}

/// A binary operation.
#[derive(Debug, PartialEq, Eq)]
pub struct Operation {
    pub left: Expression,
    pub operator: Operator,
    pub right: Expression,
}

/// The model of an `Expression`.
pub enum ExpressionModel {
    Operation(Box<OperationModel>),
    Term(TermModel),
}

/// The model of an `Operation`.
pub struct OperationModel {
    pub left: ExpressionModel,
    pub operator: Operator,
    pub right: ExpressionModel,
}

impl Expression {
    /// The model of the expression, by recursion on the tree.
    pub open spec fn model(&self) -> ExpressionModel
        decreases self,
    {
        match self {
            Expression::Operation(op) => ExpressionModel::Operation(
                Box::new(
                    OperationModel {
                        left: op.left.model(),
                        operator: op.operator,
                        right: op.right.model(),
                    },
                ),
            ),
            Expression::Term(term) => ExpressionModel::Term(term@),
        }
    }
}

impl Clone for Expression {
    fn clone(&self) -> (r: Self)
        ensures
            r@ == self@,
        decreases self,
    {
        match self {
            Expression::Operation(op) => {
                let left = op.left.clone();
                let right = op.right.clone();
                Expression::Operation(Box::new(Operation { left, operator: op.operator, right }))
            },
            Expression::Term(term) => Expression::Term(term.clone()),
        }
    }
}

impl Clone for Operation {
    fn clone(&self) -> (r: Self)
        ensures
            r@ == self@,
    {
        Operation {
            left: self.left.clone(),
            operator: self.operator,
            right: self.right.clone(),
        }
    }
}

impl View for Expression {
    type V = ExpressionModel;

    open spec fn view(&self) -> ExpressionModel {
        self.model()
    }
}

impl View for Operation {
    type V = OperationModel;

    open spec fn view(&self) -> OperationModel {
        OperationModel { left: self.left@, operator: self.operator, right: self.right@ }
    }
}

/// What a `print` statement prints.
#[derive(Debug)]
pub enum PrintStatement {
    Term(Term),
    Expression(Expression),
}

/// The model of a `PrintStatement`.
pub enum PrintModel {
    Term(TermModel),
    Expression(ExpressionModel),
}

impl View for PrintStatement {
    type V = PrintModel;

    open spec fn view(&self) -> PrintModel {
        match self {
            PrintStatement::Term(term) => PrintModel::Term(term@),
            PrintStatement::Expression(e) => PrintModel::Expression(e@),
        }
    }
}

impl Clone for PrintStatement {
    fn clone(&self) -> (r: Self)
        ensures
            r@ == self@,
    {
        match self {
            PrintStatement::Term(term) => PrintStatement::Term(term.clone()),
            PrintStatement::Expression(e) => PrintStatement::Expression(e.clone()),
        }
    }
}

/// A declaration or an assignment: the name and the expression whose value
/// it takes.
#[derive(Debug)]
pub struct AssignmentStatement {
    pub identifier: Identifier,
    pub expression: Expression,
}

/// The model of an `AssignmentStatement`.
pub struct AssignmentModel {
    pub identifier: IdentifierModel,
    pub expression: ExpressionModel,
}

impl View for AssignmentStatement {
    type V = AssignmentModel;

    open spec fn view(&self) -> AssignmentModel {
        AssignmentModel { identifier: self.identifier@, expression: self.expression@ }
    }
}

impl Clone for AssignmentStatement {
    fn clone(&self) -> (r: Self)
        ensures
            r@ == self@,
    {
        AssignmentStatement {
            identifier: self.identifier.clone(),
            expression: self.expression.clone(),
        }
    }
}

/// A conditional with its two branches.
#[derive(Debug)]
pub struct IfStatement {
    pub expression: Expression,
    pub then_statement_block: StatementBlock,
    pub else_statement_block: Option<StatementBlock>,
}

/// A statement of the language.
#[derive(Debug)]
pub enum Statement {
    Assignment(AssignmentStatement),
    If(IfStatement),
    Print(PrintStatement),
}

/// A sequence of statements with the declarations made in it.
#[derive(Debug)]
pub struct StatementBlock {
    pub statements: Vec<Statement>,
    pub symbol_table: SymbolTable,
}

/// The model of an `IfStatement`.
pub struct IfModel {
    pub expression: ExpressionModel,
    pub then_statement_block: BlockModel,
    pub else_statement_block: Option<BlockModel>,
}

/// The model of a `Statement`.
pub enum StatementModel {
    Assignment(AssignmentModel),
    If(Box<IfModel>),
    Print(PrintModel),
}

/// The model of a `StatementBlock`.
pub struct BlockModel {
    pub statements: Seq<StatementModel>,
    pub symbol_table: Map<Seq<char>, IdentifierModel>,
}

impl Statement {
    /// The model of the statement, by recursion on the tree.
    pub open spec fn model(&self) -> StatementModel
        decreases self,
    {
        match self {
            Statement::Assignment(a) => StatementModel::Assignment(a@),
            Statement::If(c) => StatementModel::If(
                Box::new(
                    IfModel {
                        expression: c.expression@,
                        then_statement_block: c.then_statement_block.model(),
                        else_statement_block: match c.else_statement_block {
                            Some(b) => Some(b.model()),
                            None => None,
                        },
                    },
                ),
            ),
            Statement::Print(p) => StatementModel::Print(p@),
        }
    }
}

impl StatementBlock {
    /// The model of the block, by recursion on the tree.
    pub open spec fn model(&self) -> BlockModel
        decreases self,
    {
        BlockModel {
            statements: Seq::new(
                self.statements.len() as nat,
                |i: int|
                    if 0 <= i < self.statements.len() {
                        self.statements[i].model()
                    } else {
                        StatementModel::Print(PrintModel::Term(TermModel::Bool(false)))
                    },
            ),
            symbol_table: self.symbol_table@,
        }
    }

    /// A block without statements or declarations.
    pub fn new() -> (r: Self)
        ensures
            r@ == (BlockModel { statements: Seq::empty(), symbol_table: Map::empty() }),
    {
        let r = StatementBlock { statements: Vec::new(), symbol_table: SymbolTable::new() };
        assert(r.model().statements =~= Seq::empty());
        r
    }
}

impl Statement {
    /// A copy of the statement with the same model.
    pub fn duplicate(&self) -> (r: Self)
        ensures
            r@ == self@,
        decreases self,
    {
        match self {
            Statement::Assignment(a) => Statement::Assignment(a.clone()),
            Statement::If(c) => {
                let expression = c.expression.clone();
                let then_statement_block = c.then_statement_block.duplicate();
                let else_statement_block = match &c.else_statement_block {
                    Some(b) => Some(b.duplicate()),
                    None => None,
                };
                Statement::If(IfStatement { expression, then_statement_block, else_statement_block })
            },
            Statement::Print(p) => Statement::Print(p.clone()),
        }
    }
}

impl StatementBlock {
    /// A copy of the block with the same model.
    pub fn duplicate(&self) -> (r: Self)
        ensures
            r@ == self@,
        decreases self,
    {
        let mut statements: Vec<Statement> = Vec::new();
        let mut i: usize = 0;
        while i < self.statements.len()
            invariant
                i <= self.statements.len(),
                statements.len() == i,
                forall|j: int| 0 <= j < i ==> (#[trigger] statements[j])@ == self.statements[j]@,
                decreases_to!(self => self.statements),
            decreases self.statements.len() - i,
        {
            proof {
                vstd::std_specs::vec::axiom_vec_index_decreases(self.statements, i as int);
            }
            let copy = self.statements[i].duplicate();
            statements.push(copy);
            i += 1;
        }
        let r = StatementBlock { statements, symbol_table: self.symbol_table.clone() };
        assert(r.model().statements =~= self.model().statements);
        r
    }
}

impl Clone for Statement {
    fn clone(&self) -> (r: Self)
        ensures
            r@ == self@,
    {
        self.duplicate()
    }
}

impl Clone for IfStatement {
    fn clone(&self) -> (r: Self)
        ensures
            r@ == self@,
    {
        IfStatement {
            expression: self.expression.clone(),
            then_statement_block: self.then_statement_block.duplicate(),
            else_statement_block: match &self.else_statement_block {
                Some(b) => Some(b.duplicate()),
                None => None,
            },
        }
    }
}

impl Clone for StatementBlock {
    fn clone(&self) -> (r: Self)
        ensures
            r@ == self@,
    {
        self.duplicate()
    }
}

impl View for Statement {
    type V = StatementModel;

    open spec fn view(&self) -> StatementModel {
        self.model()
    }
}

impl View for IfStatement {
    type V = IfModel;

    open spec fn view(&self) -> IfModel {
        IfModel {
            expression: self.expression@,
            then_statement_block: self.then_statement_block@,
            else_statement_block: match self.else_statement_block {
                Some(b) => Some(b@),
                None => None,
            },
        }
    }
}

impl View for StatementBlock {
    type V = BlockModel;

    open spec fn view(&self) -> BlockModel {
        self.model()
    }
}

/// One declaration of a table, under the name it was inserted with.
#[derive(Debug)]
pub struct Entry {
    pub key: String,
    pub identifier: Identifier,
}

/// The declarations of one block, by name. A name is held once: inserting
/// it again replaces what it stood for.
#[derive(Debug)]
pub struct SymbolTable {
    entries: Vec<Entry>,
}

/// The index of the last entry under the given name, or -1 where there is
/// none.
pub open spec fn position(entries: Seq<Entry>, key: Seq<char>) -> int
    decreases entries.len(),
{
    if entries.len() == 0 {
        -1
    } else if entries.last().key@ == key {
        entries.len() - 1
    } else {
        position(entries.drop_last(), key)
    }
}

/// The map that a list of entries stands for: each name with the
/// declaration inserted last under it.
pub open spec fn entries_map(entries: Seq<Entry>) -> Map<Seq<char>, IdentifierModel> {
    Map::new(
        |key: Seq<char>| position(entries, key) >= 0,
        |key: Seq<char>| entries[position(entries, key)].identifier@,
    )
}

proof fn lemma_position_bounds(entries: Seq<Entry>, key: Seq<char>)
    ensures
        -1 <= position(entries, key) < entries.len(),
        position(entries, key) >= 0 ==> entries[position(entries, key)].key@ == key,
        position(entries, key) < 0 ==> forall|i: int|
            0 <= i < entries.len() ==> (#[trigger] entries[i]).key@ != key,
    decreases entries.len(),
{
    if entries.len() > 0 && entries.last().key@ != key {
        lemma_position_bounds(entries.drop_last(), key);
        assert forall|i: int| 0 <= i < entries.len() && position(entries, key) < 0 implies (
        #[trigger] entries[i]).key@ != key by {
            if i < entries.len() - 1 {
                assert(entries.drop_last()[i] == entries[i]);
            }
        }
    }
}

proof fn lemma_position_same_keys(a: Seq<Entry>, b: Seq<Entry>, key: Seq<char>)
    requires
        a.len() == b.len(),
        forall|i: int| 0 <= i < a.len() ==> (#[trigger] a[i]).key@ == b[i].key@,
    ensures
        position(a, key) == position(b, key),
    decreases a.len(),
{
    if a.len() > 0 {
        assert(a.last().key@ == b.last().key@);
        assert forall|i: int| 0 <= i < a.drop_last().len() implies (#[trigger] a.drop_last()[i]).key@
            == b.drop_last()[i].key@ by {
            assert(a[i].key@ == b[i].key@);
        }
        lemma_position_same_keys(a.drop_last(), b.drop_last(), key);
    }
}

impl View for SymbolTable {
    type V = Map<Seq<char>, IdentifierModel>;

    closed spec fn view(&self) -> Map<Seq<char>, IdentifierModel> {
        entries_map(self.entries@)
    }
}

impl SymbolTable {
    /// An empty table.
    pub fn new() -> (r: Self)
        ensures
            r@ == Map::<Seq<char>, IdentifierModel>::empty(),
    {
        let r = SymbolTable { entries: Vec::new() };
        assert(r@ =~= Map::<Seq<char>, IdentifierModel>::empty());
        r
    }

    fn find(&self, key: &str) -> (r: Option<usize>)
        ensures
            (match r {
                Some(i) => i == position(self.entries@, key@) && i < self.entries.len(),
                None => position(self.entries@, key@) < 0,
            }),
    {
        proof {
            lemma_position_bounds(self.entries@, key@);
        }
        let mut i: usize = self.entries.len();
        assert(self.entries@.take(i as int) =~= self.entries@);
        while i > 0
            invariant
                i <= self.entries.len(),
                position(self.entries@, key@) == position(self.entries@.take(i as int), key@),
            decreases i,
        {
            i -= 1;
            proof {
                let grown = self.entries@.take(i + 1);
                assert(grown.drop_last() =~= self.entries@.take(i as int));
                assert(grown.last() == self.entries@[i as int]);
            }
            if crate::text::same_text(self.entries[i].key.as_str(), key) {
                return Some(i);
            }
        }
        None
    }

    /// Whether a declaration stands under the name.
    pub fn contains_key(&self, key: &str) -> (r: bool)
        ensures
            r == self@.contains_key(key@),
    {
        self.find(key).is_some()
    }

    /// The declaration under the name, if there is one.
    pub fn get(&self, key: &str) -> (r: Option<&Identifier>)
        ensures
            (match r {
                Some(identifier) => self@.contains_key(key@) && identifier@ == self@[key@],
                None => !self@.contains_key(key@),
            }),
    {
        match self.find(key) {
            Some(i) => Some(&self.entries[i].identifier),
            None => None,
        }
    }

    /// Puts the declaration under the name, in place of what stood there.
    pub fn insert(&mut self, key: String, identifier: Identifier)
        ensures
            final(self)@ == old(self)@.insert(key@, identifier@),
    {
        let ghost before = self.entries@;
        let ghost name = key@;
        let ghost model = identifier@;
        match self.find(key.as_str()) {
            Some(i) => {
                self.entries.set(i, Entry { key, identifier });
                proof {
                    let after = self.entries@;
                    let target = entries_map(before).insert(name, model);
                    lemma_position_bounds(before, name);
                    assert forall|k: Seq<char>| #[trigger]
                        entries_map(after).dom().contains(k) == target.dom().contains(k) by {
                        lemma_position_same_keys(after, before, k);
                        lemma_position_bounds(before, k);
                    }
                    assert forall|k: Seq<char>| #[trigger]
                        target.dom().contains(k) implies entries_map(after)[k] == target[k] by {
                        lemma_position_same_keys(after, before, k);
                        lemma_position_bounds(before, k);
                    }
                    assert(entries_map(after) =~= target);
                }
            },
            None => {
                self.entries.push(Entry { key, identifier });
                proof {
                    let after = self.entries@;
                    let target = entries_map(before).insert(name, model);
                    assert(after.drop_last() =~= before);
                    assert forall|k: Seq<char>| #[trigger]
                        entries_map(after).dom().contains(k) == target.dom().contains(k) by {
                        lemma_position_bounds(before, k);
                    }
                    assert forall|k: Seq<char>| #[trigger]
                        target.dom().contains(k) implies entries_map(after)[k] == target[k] by {
                        lemma_position_bounds(before, k);
                    }
                    assert(entries_map(after) =~= target);
                }
            },
        }
    }
}

impl Clone for SymbolTable {
    fn clone(&self) -> (r: Self)
        ensures
            r@ == self@,
    {
        let mut entries: Vec<Entry> = Vec::new();
        let mut i: usize = 0;
        while i < self.entries.len()
            invariant
                i <= self.entries.len(),
                entries@ == self.entries@.take(i as int),
            decreases self.entries.len() - i,
        {
            let entry = Entry {
                key: self.entries[i].key.clone(),
                identifier: self.entries[i].identifier.clone(),
            };
            entries.push(entry);
            assert(entries@ =~= self.entries@.take(i + 1));
            i += 1;
        }
        assert(entries@ =~= self.entries@);
        SymbolTable { entries }
    }
}

} // verus!
