//! The statement tree: statements, functions, and names already resolved to
//! bindings. Every node carries a [`Span`]; `&&`/`||` are
//! [`ExprKind::Logical`] and not [`ExprKind::Binary`], because they are control
//! flow; and a name is a [`Res`], answered once by the parser's resolution
//! pass. The whole compilation unit is [`Program::script_id`], an ordinary
//! [`Function`] with no name.
use vstd::prelude::*;

verus! {

/// Where a node starts, in bytes from the start of the source.
#[derive(Debug, Clone, Copy, PartialEq, Eq, Structural)]
pub struct Span(pub usize);

impl Span {
    pub fn offset(self) -> (o: usize)
        ensures
            o == self.0,
    {
        self.0
    }
}

/// Index into [`Program::functions`].
#[derive(Debug, Clone, Copy, PartialEq, Eq, Structural)]
pub struct FuncId(pub u32);

/// Index into [`Program::bindings`]: one declared name, program-wide.
#[derive(Debug, Clone, Copy, PartialEq, Eq, Structural)]
pub struct BindingId(pub u32);

/// A whole compilation unit: every function it defines and every name it
/// binds, with the statements hanging off [`Program::script_id`].
#[derive(Debug)]
pub struct Program {
    pub functions: Vec<Function>,
    pub bindings: Vec<Binding>,
    /// How many `$N` the script names: one past the highest index used.
    pub arg_count: u32,
}

impl Program {
    /// The compilation unit itself. Always the first function, so a consumer
    /// can tell module storage from a frame slot by comparing
    /// [`Binding::func`] against it.
    pub fn script_id() -> (id: FuncId)
        ensures
            id.0 == 0,
    {
        FuncId(0)
    }

    /// The script's function.
    pub fn script(&self) -> (f: &Function)
        requires
            self.functions@.len() > 0,
        ensures
            *f == self.functions@[0],
    {
        self.func(FuncId(0))
    }

    /// The function `id` names.
    pub fn func(&self, id: FuncId) -> (f: &Function)
        requires
            (id.0 as int) < self.functions@.len(),
        ensures
            *f == self.functions@[id.0 as int],
    {
        &self.functions[id.0 as usize]
    }

    /// The binding `id` names.
    pub fn binding(&self, id: BindingId) -> (b: &Binding)
        requires
            (id.0 as int) < self.bindings@.len(),
        ensures
            *b == self.bindings@[id.0 as int],
    {
        &self.bindings[id.0 as usize]
    }
}

/// One function: the script, a declaration, or a function expression.
#[derive(Debug)]
pub struct Function {
    /// The declared name, or `None` for the script and for an anonymous
    /// function expression.
    pub name: Option<String>,
    /// Parameters in order. Also the first entries of `bindings`.
    pub params: Vec<BindingId>,
    /// Every binding whose storage this function owns, parameters first.
    pub bindings: Vec<BindingId>,
    pub body: Vec<Stmt>,
    pub span: Span,
    /// Bindings of an enclosing function that this one reads, in the order
    /// they became its environment.
    pub captures: Vec<BindingId>,
}

/// One declared name.
#[derive(Debug)]
pub struct Binding {
    pub name: String,
    pub kind: BindingKind,
    pub span: Span,
    /// Where this binding stops being in its temporal dead zone, or `None`
    /// for one that holds a value when its scope is entered.
    pub initialised: Option<usize>,
    /// The function that owns the storage.
    pub func: FuncId,
    /// Position in that function's [`Function::bindings`].
    pub slot: u32,
    /// Whether some nested function reads this binding.
    pub captured: bool,
    /// Whether this declaration sits inside a loop body.
    pub in_loop: bool,
}

/// How a name was declared.
#[derive(Debug, Clone, Copy, PartialEq, Eq, Structural)]
pub enum BindingKind {
    Param,
    Var,
    Let,
    Const,
    /// A `function f(){}` declaration, or a `const f = function(){}`.
    Function(FuncId),
}

/// What a name occurrence turned out to mean.
#[derive(Debug)]
pub enum Res {
    Unresolved,
    Local(BindingId),
    Global(BindingId),
    Captured(BindingId),
    Callee(BindingId),
    Host(String),
    Json,
}

/// One occurrence of a name.
#[derive(Debug)]
pub struct Name {
    pub text: String,
    pub res: Res,
    pub occurrence: u32,
}

#[derive(Debug)]
pub struct Stmt {
    pub kind: StmtKind,
    pub span: Span,
}

#[derive(Debug)]
pub enum StmtKind {
    Empty,
    Expr(Expr),
    Decl(Vec<Declarator>),
    Block(Vec<Stmt>),
    If { test: Expr, then: Box<Stmt>, alt: Option<Box<Stmt>> },
    While { test: Expr, body: Box<Stmt> },
    For {
        init: Option<Box<Stmt>>,
        test: Option<Expr>,
        update: Option<Expr>,
        body: Box<Stmt>,
    },
    Return(Option<Expr>),
    Throw(Expr),
    Try { block: Vec<Stmt>, handler: Option<Catch>, finalizer: Option<Vec<Stmt>> },
    Func { binding: BindingId, func: FuncId },
}

/// One `catch` clause.
#[derive(Debug)]
pub struct Catch {
    pub param: Option<BindingId>,
    pub body: Vec<Stmt>,
}

/// One `key: value` of an ObjectLiteral.
#[derive(Debug)]
pub struct Property {
    pub key: String,
    pub value: Expr,
    pub span: Span,
}

/// How a MemberExpression names its property.
#[derive(Debug)]
pub enum MemberKey {
    Static(String),
    Computed(Box<Expr>),
}

/// One name of a declaration, with its initialiser if it has one.
#[derive(Debug)]
pub struct Declarator {
    pub binding: BindingId,
    pub init: Option<Expr>,
    pub span: Span,
}

#[derive(Debug)]
pub struct Expr {
    pub kind: ExprKind,
    pub span: Span,
}

#[derive(Debug)]
pub enum ExprKind {
    Int(i32),
    /// A numeric literal with a fraction or an exponent, held as the
    /// IEEE-754 bit pattern of the binary64 value it denotes.
    Num(u64),
    Str(String),
    Bool(bool),
    Null,
    Undefined,
    Arg(u32),
    Name(Name),
    Function(FuncId),
    Object(Vec<Property>),
    Array(Vec<Expr>),
    Member { object: Box<Expr>, key: MemberKey },
    Call { callee: Box<Expr>, args: Vec<Expr> },
    Unary(UnaryOp, Box<Expr>),
    Update { op: UpdateOp, prefix: bool, target: Box<Expr> },
    Binary(BinaryOp, Box<Expr>, Box<Expr>),
    Conditional { test: Box<Expr>, then: Box<Expr>, alt: Box<Expr> },
    Logical(LogicalOp, Box<Expr>, Box<Expr>),
    Assign { op: Option<BinaryOp>, target: Box<Expr>, value: Box<Expr> },
}

#[derive(Debug, Clone, Copy, PartialEq, Eq, Structural)]
pub enum UnaryOp {
    Neg,
    Plus,
    Not,
    TypeOf,
}

#[derive(Debug, Clone, Copy, PartialEq, Eq, Structural)]
pub enum UpdateOp {
    Inc,
    Dec,
}

#[derive(Debug, Clone, Copy, PartialEq, Eq, Structural)]
pub enum BinaryOp {
    Add,
    Sub,
    Mul,
    Div,
    Rem,
    Lt,
    Le,
    Gt,
    Ge,
    Eq,
    Ne,
    StrictEq,
    StrictNe,
}

/// How each operator is written.
pub open spec fn symbol_text(op: BinaryOp) -> Seq<char> {
    match op {
        BinaryOp::Add => "+"@,
        BinaryOp::Sub => "-"@,
        BinaryOp::Mul => "*"@,
        BinaryOp::Div => "/"@,
        BinaryOp::Rem => "%"@,
        BinaryOp::Lt => "<"@,
        BinaryOp::Le => "<="@,
        BinaryOp::Gt => ">"@,
        BinaryOp::Ge => ">="@,
        BinaryOp::Eq => "=="@,
        BinaryOp::Ne => "!="@,
        BinaryOp::StrictEq => "==="@,
        BinaryOp::StrictNe => "!=="@,
    }
}

impl BinaryOp {
    /// How the operator is written.
    pub fn symbol(self) -> (s: &'static str)
        ensures
            s@ == symbol_text(self),
    {
        match self {
            BinaryOp::Add => "+",
            BinaryOp::Sub => "-",
            BinaryOp::Mul => "*",
            BinaryOp::Div => "/",
            BinaryOp::Rem => "%",
            BinaryOp::Lt => "<",
            BinaryOp::Le => "<=",
            BinaryOp::Gt => ">",
            BinaryOp::Ge => ">=",
            BinaryOp::Eq => "==",
            BinaryOp::Ne => "!=",
            BinaryOp::StrictEq => "===",
            BinaryOp::StrictNe => "!==",
        }
    }
}

#[derive(Debug, Clone, Copy, PartialEq, Eq, Structural)]
pub enum LogicalOp {
    And,
    Or,
}

/// The name [`Res::Json`] answers to.
pub open spec fn json_name() -> Seq<char> {
    "JSON"@
}

} // verus!
