//! The printer: from a tree to its text.

use vstd::prelude::*;
use vstd::string::StringExecFns;

use super::model::BinaryOp;
use super::model::Expr;
use super::model::Radix;
use super::model::Stmt;
use super::render::body_text;
use super::render::branch_text;
use super::render::do_text;
use super::render::docs_text;
use super::render::expression_text;
use super::render::invocation_text;
use super::render::line_text;
use super::render::lines_text;
use super::render::list_text;
use super::render::literal_text;
use super::render::operator_text;
use super::render::params_text;
use super::render::spaces;
use super::render::statement_text;
use super::render::unit_text;
use super::render::value_text;
use super::render::INDENT;
use super::tree::expressions;
use super::tree::lines;
use super::tree::statements;
use super::tree::ArgumentList;
use super::tree::Call;
use super::tree::Code;
use super::tree::CommaList;
use super::tree::DocComment;
use super::tree::Expression;
use super::tree::Identifier;
use super::tree::LValue;
use super::tree::Literal;
use super::tree::Statement;
use super::tree::Statements;
use super::tree::Value;

verus! {

/// The sign of a binary operator.
fn sign(op: BinaryOp) -> (r: &'static str)
    ensures
        r@ == operator_text(op),
{
    match op {
        BinaryOp::Plus => "+",
        BinaryOp::Minus => "-",
        BinaryOp::Times => "*",
        BinaryOp::Slash => "/",
        BinaryOp::Pct => "%",
        BinaryOp::Exp => "**",
        BinaryOp::Mod => "mod",
        BinaryOp::Div => "div",
        BinaryOp::LShift => "<<",
        BinaryOp::RShift => ">>",
        BinaryOp::And => "&",
        BinaryOp::Or => "|",
        BinaryOp::Xor => "^",
        BinaryOp::BAnd => "&&",
        BinaryOp::BOr => "||",
        BinaryOp::Eq => "==",
        BinaryOp::Neq => "!=",
        BinaryOp::Lt => "<",
        BinaryOp::Gt => ">",
        BinaryOp::Leq => "<=",
        BinaryOp::Geq => ">=",
    }
}

/// A run of `n` blanks.
fn margin(n: usize) -> (r: String)
    ensures
        r@ == spaces(n as nat),
{
    let mut r = String::new();
    let mut i: usize = 0;
    while i < n
        invariant
            i <= n,
            r@ == spaces(i as nat),
        decreases n - i,
    {
        r.push(' ');
        i = i + 1;
        assert(r@ =~= spaces(i as nat));
    }
    r
}

/// The margin that is one step wider than `margin`.
fn wider(margin: &str) -> (r: String)
    requires
        margin@ == spaces(margin@.len()),
    ensures
        r@ == spaces(margin@.len() + INDENT as nat),
{
    let mut r = String::from_str(margin);
    let mut i: usize = 0;
    while i < INDENT
        invariant
            i <= INDENT,
            r@ == spaces(margin@.len() + i as nat),
        decreases INDENT - i,
    {
        r.push(' ');
        i = i + 1;
        assert(r@ =~= spaces(margin@.len() + i as nat));
    }
    r
}

impl Identifier {
    /// The name.
    pub fn print(&self) -> (r: String)
        ensures
            r@ == self@,
    {
        self.0.clone()
    }
}

impl Literal {
    /// Appends the literal to `out`.
    fn write(&self, out: &mut String)
        ensures
            final(out)@ == old(out)@ + literal_text(self@),
    {
        match self {
            Literal::Numeric(number) => {
                match number.radix {
                    Radix::Binary => {
                        out.append("0b");
                    },
                    Radix::Hexadecimal => {
                        out.append("0x");
                    },
                    Radix::Decimal => {},
                }
                out.append(number.digits.as_str());
                assert(out@ =~= old(out)@ + literal_text(self@));
            },
            Literal::Boolean(b) => {
                if *b {
                    out.append("true");
                } else {
                    out.append("false");
                }
            },
            Literal::String(text) => {
                out.push('"');
                out.append(text.as_str());
                out.push('"');
                assert(out@ =~= old(out)@ + literal_text(self@));
            },
            Literal::Char(c) => {
                out.push('\'');
                if *c == '\n' {
                    out.push('\\');
                    out.push('n');
                } else if *c == '\t' {
                    out.push('\\');
                    out.push('t');
                } else if *c == '\\' {
                    out.push('\\');
                    out.push('\\');
                } else if *c == '\'' {
                    out.push('\\');
                    out.push('\'');
                } else {
                    out.push(*c);
                }
                out.push('\'');
                assert(out@ =~= old(out)@ + literal_text(self@));
            },
            Literal::Undefined => {
                out.append("undefined");
            },
        }
    }

    /// The text of the literal.
    pub fn print(&self) -> (r: String)
        ensures
            r@ == literal_text(self@),
    {
        let mut out = String::new();
        self.write(&mut out);
        assert(out@ =~= literal_text(self@));
        out
    }
}

impl Value {
    /// Appends the value to `out`.
    fn write(&self, out: &mut String)
        ensures
            final(out)@ == old(out)@ + value_text(self@),
        decreases self,
    {
        match self {
            Value::Ident(ident) => {
                out.append(ident.0.as_str());
            },
            Value::Literal(literal) => {
                literal.write(out);
            },
            Value::Expr(expr) => {
                out.push('(');
                expr.write(out);
                out.push(')');
                assert(out@ =~= old(out)@ + value_text(self@));
            },
            Value::Call(call) => {
                call.write(out);
            },
            Value::Negative(inner) => {
                out.push('-');
                match &**inner {
                    Value::Negative(_) => {
                        out.push(' ');
                    },
                    _ => {},
                }
                inner.write(out);
                assert(out@ =~= old(out)@ + value_text(self@));
            },
            Value::Not(inner) => {
                out.push('!');
                inner.write(out);
                assert(out@ =~= old(out)@ + value_text(self@));
            },
            Value::Inverted(inner) => {
                out.push('~');
                inner.write(out);
                assert(out@ =~= old(out)@ + value_text(self@));
            },
        }
    }

    /// The text of the value.
    pub fn print(&self) -> (r: String)
        ensures
            r@ == value_text(self@),
    {
        let mut out = String::new();
        self.write(&mut out);
        assert(out@ =~= value_text(self@));
        out
    }
}

impl Call {
    /// Appends the call to `out`.
    fn write(&self, out: &mut String)
        ensures
            final(out)@ == old(out)@ + invocation_text(self@),
        decreases self,
    {
        out.append(self.name.0.as_str());
        out.push('(');
        write_list(&self.arguments.0, out);
        out.push(')');
        assert(out@ =~= old(out)@ + invocation_text(self@));
    }

    /// The text of the call.
    pub fn print(&self) -> (r: String)
        ensures
            r@ == invocation_text(self@),
    {
        let mut out = String::new();
        self.write(&mut out);
        assert(out@ =~= invocation_text(self@));
        out
    }
}

/// Appends the expressions of a list to `out`, each with a comma and a
/// blank behind it.
fn write_list(list: &Vec<Expression>, out: &mut String)
    ensures
        final(out)@ == old(out)@ + list_text(expressions(list@)),
    decreases list,
{
    let ghost all = expressions(list@);
    let mut i: usize = 0;
    assert(all.take(0) =~= Seq::<Expr>::empty());
    assert(out@ =~= old(out)@ + list_text(all.take(0)));
    while i < list.len()
        invariant
            i <= list.len(),
            all == expressions(list@),
            out@ == old(out)@ + list_text(all.take(i as int)),
        decreases list.len() - i,
    {
        let ghost before = out@;
        list[i].write(out);
        out.append(", ");
        proof {
            let next = all.take(i + 1);
            assert(next.drop_last() =~= all.take(i as int));
            assert(next.last() == list[i as int]@);
            assert(list_text(next) == list_text(all.take(i as int)) + expression_text(
                list[i as int]@,
            ) + ", "@);
            assert(out@ =~= old(out)@ + list_text(next));
        }
        i = i + 1;
    }
    assert(all.take(i as int) =~= all);
}

impl CommaList {
    /// The text of the list.
    pub fn print(&self) -> (r: String)
        ensures
            r@ == list_text(self@),
    {
        let mut out = String::new();
        write_list(&self.0, &mut out);
        assert(out@ =~= list_text(self@));
        out
    }
}

impl Expression {
    /// The operator and the operands of an expression that joins two by a
    /// binary operator.
    fn operands(&self) -> (r: Option<(BinaryOp, &Expression, &Expression)>)
        ensures
            match r {
                Some((op, lhs, rhs)) => self@ == Expr::Binary(op, Box::new(lhs@), Box::new(rhs@))
                    && decreases_to!(*self => *lhs) && decreases_to!(*self => *rhs),
                None => !(self@ is Binary),
            },
    {
        match self {
            Expression::Plus(lhs, rhs) => Some((BinaryOp::Plus, &**lhs, &**rhs)),
            Expression::Minus(lhs, rhs) => Some((BinaryOp::Minus, &**lhs, &**rhs)),
            Expression::Times(lhs, rhs) => Some((BinaryOp::Times, &**lhs, &**rhs)),
            Expression::Slash(lhs, rhs) => Some((BinaryOp::Slash, &**lhs, &**rhs)),
            Expression::Pct(lhs, rhs) => Some((BinaryOp::Pct, &**lhs, &**rhs)),
            Expression::Exp(lhs, rhs) => Some((BinaryOp::Exp, &**lhs, &**rhs)),
            Expression::Mod(lhs, rhs) => Some((BinaryOp::Mod, &**lhs, &**rhs)),
            Expression::Div(lhs, rhs) => Some((BinaryOp::Div, &**lhs, &**rhs)),
            Expression::LShift(lhs, rhs) => Some((BinaryOp::LShift, &**lhs, &**rhs)),
            Expression::RShift(lhs, rhs) => Some((BinaryOp::RShift, &**lhs, &**rhs)),
            Expression::And(lhs, rhs) => Some((BinaryOp::And, &**lhs, &**rhs)),
            Expression::Or(lhs, rhs) => Some((BinaryOp::Or, &**lhs, &**rhs)),
            Expression::Xor(lhs, rhs) => Some((BinaryOp::Xor, &**lhs, &**rhs)),
            Expression::BAnd(lhs, rhs) => Some((BinaryOp::BAnd, &**lhs, &**rhs)),
            Expression::BOr(lhs, rhs) => Some((BinaryOp::BOr, &**lhs, &**rhs)),
            Expression::Eq(lhs, rhs) => Some((BinaryOp::Eq, &**lhs, &**rhs)),
            Expression::Neq(lhs, rhs) => Some((BinaryOp::Neq, &**lhs, &**rhs)),
            Expression::Lt(lhs, rhs) => Some((BinaryOp::Lt, &**lhs, &**rhs)),
            Expression::Gt(lhs, rhs) => Some((BinaryOp::Gt, &**lhs, &**rhs)),
            Expression::Leq(lhs, rhs) => Some((BinaryOp::Leq, &**lhs, &**rhs)),
            Expression::Geq(lhs, rhs) => Some((BinaryOp::Geq, &**lhs, &**rhs)),
            _ => None,
        }
    }

    /// Appends the expression to `out`.
    fn write(&self, out: &mut String)
        ensures
            final(out)@ == old(out)@ + expression_text(self@),
        decreases self,
    {
        match self {
            Expression::Pipe(lhs, call) => {
                lhs.write(out);
                out.append(" |> ");
                call.write(out);
                assert(out@ =~= old(out)@ + expression_text(self@));
            },
            Expression::Ternary(cond, first, second) => {
                cond.write(out);
                out.append(" ? ");
                first.write(out);
                out.append(" : ");
                second.write(out);
                assert(out@ =~= old(out)@ + expression_text(self@));
            },
            Expression::Value(value) => {
                value.write(out);
            },
            _ => {
                match self.operands() {
                    Some((op, lhs, rhs)) => {
                        lhs.write(out);
                        out.push(' ');
                        out.append(sign(op));
                        out.push(' ');
                        rhs.write(out);
                        assert(out@ =~= old(out)@ + expression_text(self@));
                    },
                    None => {},
                }
            },
        }
    }

    /// The text of the expression.
    pub fn print(&self) -> (r: String)
        ensures
            r@ == expression_text(self@),
    {
        let mut out = String::new();
        self.write(&mut out);
        assert(out@ =~= expression_text(self@));
        out
    }
}

impl LValue {
    /// The text of the l-value.
    pub fn print(&self) -> (r: String)
        ensures
            r@ == self@,
    {
        match self {
            LValue::Identifier(ident) => ident.print(),
        }
    }
}

/// Appends the statements of a list to `out`, each as a line of its own
/// with the margin in front, without those that do nothing.
fn write_lines(list: &Vec<Statement>, out: &mut String, margin: &str)
    requires
        margin@ == spaces(margin@.len()),
    ensures
        final(out)@ == old(out)@ + lines_text(statements(list@), margin@.len()),
    decreases list, 0nat,
{
    let ghost all = statements(list@);
    let mut i: usize = 0;
    assert(all.take(0) =~= Seq::<Stmt>::empty());
    assert(out@ =~= old(out)@ + lines_text(all.take(0), margin@.len()));
    while i < list.len()
        invariant
            i <= list.len(),
            margin@ == spaces(margin@.len()),
            all == statements(list@),
            out@ == old(out)@ + lines_text(all.take(i as int), margin@.len()),
        decreases list.len() - i,
    {
        proof {
            let next = all.take(i + 1);
            assert(next.drop_last() =~= all.take(i as int));
            assert(next.last() == list[i as int]@);
        }
        if !list[i].is_noop() {
            list[i].write_line(out, margin);
        }
        assert(out@ =~= old(out)@ + lines_text(all.take(i + 1), margin@.len()));
        i = i + 1;
    }
    assert(all.take(i as int) =~= all);
}

impl Statement {
    /// Appends the statement to `out`, without blanks in front of its first
    /// line and without a line feed behind its last; `margin` is the
    /// indentation of the statement.
    fn write(&self, out: &mut String, margin: &str)
        requires
            margin@ == spaces(margin@.len()),
        ensures
            final(out)@ == old(out)@ + statement_text(self@, margin@.len()),
        decreases self, 1nat,
    {
        match self {
            Statement::If(..) => self.write_conditional(out, margin),
            Statement::While(..) | Statement::Until(..) | Statement::Repeat(..) => {
                self.write_pre_loop(out, margin)
            },
            Statement::DoWhile(..) | Statement::DoUntil(..) => self.write_post_loop(out, margin),
            Statement::For(..) => self.write_for(out, margin),
            Statement::Block(..) => self.write_block(out, margin),
            Statement::Noop
            | Statement::Return(None)
            | Statement::Break
            | Statement::Exit
            | Statement::Continue => self.write_word(out),
            _ => self.write_simple(out),
        }
    }

    /// Appends a statement that is one fixed word.
    fn write_word(&self, out: &mut String)
        requires
            self@ == Stmt::Noop || self@ == Stmt::Return(None) || self@ == Stmt::Break || self@
                == Stmt::Exit || self@ == Stmt::Continue,
        ensures
            forall|indent: nat| final(out)@ == old(out)@ + #[trigger] statement_text(self@, indent),
    {
        match self {
            Statement::Noop => {
                out.append(";");
            },
            Statement::Return(None) => {
                out.append("return;");
            },
            Statement::Break => {
                out.append("break;");
            },
            Statement::Exit => {
                out.append("exit;");
            },
            _ => {
                out.append("continue;");
            },
        }
    }

    /// Appends a statement that holds no other statement.
    fn write_simple(&self, out: &mut String)
        requires
            self@ is Assignment || self@ is Expression || self@ is VarDecl || self@ is VarDeclAssign
                || self@ is GlobalvarDecl || self@ is GlobalvarDeclAssign || (self@ is Return
                && self@ != Stmt::Return(None)),
        ensures
            forall|indent: nat| final(out)@ == old(out)@ + #[trigger] statement_text(self@, indent),
    {
        match self {
            Statement::Assignment(assignment) => {
                match assignment {
                    super::tree::Assignment::Eq(lvalue, expr) => {
                        match lvalue {
                            LValue::Identifier(ident) => {
                                out.append(ident.0.as_str());
                            },
                        }
                        out.append(" = ");
                        expr.write(out);
                        out.append(";");
                    },
                }
                assert(out@ =~= old(out)@ + statement_text(self@, 0));
            },
            Statement::Expression(expr) => {
                expr.write(out);
                out.append(";");
                assert(out@ =~= old(out)@ + statement_text(self@, 0));
            },
            Statement::VarDecl(ident) => {
                out.append("var ");
                out.append(ident.0.as_str());
                out.append(";");
                assert(out@ =~= old(out)@ + statement_text(self@, 0));
            },
            Statement::VarDeclAssign(ident, expr) => {
                out.append("var ");
                out.append(ident.0.as_str());
                out.append(" = ");
                expr.write(out);
                out.append(";");
                assert(out@ =~= old(out)@ + statement_text(self@, 0));
            },
            Statement::GlobalvarDecl(ident) => {
                out.append("globalvar ");
                out.append(ident.0.as_str());
                out.append(";");
                assert(out@ =~= old(out)@ + statement_text(self@, 0));
            },
            Statement::GlobalvarDeclAssign(ident, expr) => {
                out.append("globalvar ");
                out.append(ident.0.as_str());
                out.append(" = ");
                expr.write(out);
                out.append(";");
                assert(out@ =~= old(out)@ + statement_text(self@, 0));
            },
            Statement::Return(Some(expr)) => {
                out.append("return ");
                expr.write(out);
                out.append(";");
                assert(out@ =~= old(out)@ + statement_text(self@, 0));
            },
            _ => {},
        }
    }

    /// Appends an `if` statement.
    fn write_conditional(&self, out: &mut String, margin: &str)
        requires
            margin@ == spaces(margin@.len()),
            self@ is If,
        ensures
            final(out)@ == old(out)@ + statement_text(self@, margin@.len()),
        decreases self, 0nat,
    {
        match self {
            Statement::If(cond, body, None) => {
                out.append("if (");
                cond.write(out);
                out.append(")");
                body.write_branch(out, margin);
                assert(out@ =~= old(out)@ + statement_text(self@, margin@.len()));
            },
            Statement::If(cond, body, Some(otherwise)) => {
                out.append("if (");
                cond.write(out);
                out.append(")");
                body.write_branch(out, margin);
                if body.is_block() {
                    out.append(" else");
                } else {
                    out.append("\n");
                    out.append(margin);
                    out.append("else");
                }
                otherwise.write_branch(out, margin);
                assert(out@ =~= old(out)@ + statement_text(self@, margin@.len()));
            },
            _ => {},
        }
    }

    /// Appends a loop that has its condition, or its count, in front of
    /// its body.
    fn write_pre_loop(&self, out: &mut String, margin: &str)
        requires
            margin@ == spaces(margin@.len()),
            self@ is While || self@ is Until || self@ is Repeat,
        ensures
            final(out)@ == old(out)@ + statement_text(self@, margin@.len()),
        decreases self, 0nat,
    {
        match self {
            Statement::While(cond, body) => {
                out.append("while (");
                cond.write(out);
                out.append(")");
                body.write_body(out, margin);
                assert(out@ =~= old(out)@ + statement_text(self@, margin@.len()));
            },
            Statement::Until(cond, body) => {
                out.append("until (");
                cond.write(out);
                out.append(")");
                body.write_body(out, margin);
                assert(out@ =~= old(out)@ + statement_text(self@, margin@.len()));
            },
            Statement::Repeat(times, body) => {
                out.append("repeat (");
                times.write(out);
                out.append(")");
                body.write_body(out, margin);
                assert(out@ =~= old(out)@ + statement_text(self@, margin@.len()));
            },
            _ => {},
        }
    }

    /// Appends a loop that has its condition behind its body.
    fn write_post_loop(&self, out: &mut String, margin: &str)
        requires
            margin@ == spaces(margin@.len()),
            self@ is DoWhile || self@ is DoUntil,
        ensures
            final(out)@ == old(out)@ + statement_text(self@, margin@.len()),
        decreases self, 0nat,
    {
        match self {
            Statement::DoWhile(body, cond) => {
                out.append("do");
                body.write_do(out, margin);
                out.append("while (");
                cond.write(out);
                out.append(")");
                if body.is_noop() {
                    out.append(";");
                }
                assert(out@ =~= old(out)@ + statement_text(self@, margin@.len()));
            },
            Statement::DoUntil(body, cond) => {
                out.append("do");
                body.write_do(out, margin);
                out.append("until (");
                cond.write(out);
                out.append(")");
                if body.is_noop() {
                    out.append(";");
                }
                assert(out@ =~= old(out)@ + statement_text(self@, margin@.len()));
            },
            _ => {},
        }
    }

    /// Appends a `for` loop.
    fn write_for(&self, out: &mut String, margin: &str)
        requires
            margin@ == spaces(margin@.len()),
            self@ is For,
        ensures
            final(out)@ == old(out)@ + statement_text(self@, margin@.len()),
        decreases self, 0nat,
    {
        match self {
            Statement::For(init, cond, update, body) => {
                out.append("for (");
                init.write(out, margin);
                out.append(" ");
                cond.write(out);
                out.append(" ");
                update.write(out, margin);
                out.append(")");
                body.write_body(out, margin);
                assert(out@ =~= old(out)@ + statement_text(self@, margin@.len()));
            },
            _ => {},
        }
    }

    /// Appends a block.
    fn write_block(&self, out: &mut String, margin: &str)
        requires
            margin@ == spaces(margin@.len()),
            self@ is Block,
        ensures
            final(out)@ == old(out)@ + statement_text(self@, margin@.len()),
        decreases self, 0nat,
    {
        match self {
            Statement::Block(list) => {
                out.append("{\n");
                let inner = wider(margin);
                write_lines(list, out, inner.as_str());
                out.append(margin);
                out.append("}");
                assert(out@ =~= old(out)@ + statement_text(self@, margin@.len()));
            },
            _ => {},
        }
    }

    /// Appends the statement to `out` as the branch of an `if`.
    fn write_branch(&self, out: &mut String, margin: &str)
        requires
            margin@ == spaces(margin@.len()),
        ensures
            final(out)@ == old(out)@ + branch_text(self@, margin@.len()),
        decreases self, 2nat,
    {
        if self.is_block() {
            out.append(" ");
            self.write(out, margin);
        } else {
            let inner = wider(margin);
            out.append("\n");
            out.append(inner.as_str());
            self.write(out, inner.as_str());
        }
        assert(out@ =~= old(out)@ + branch_text(self@, margin@.len()));
    }

    /// Appends the statement to `out` as the body of a loop.
    fn write_body(&self, out: &mut String, margin: &str)
        requires
            margin@ == spaces(margin@.len()),
        ensures
            final(out)@ == old(out)@ + body_text(self@, margin@.len()),
        decreases self, 3nat,
    {
        if self.is_noop() {
            out.append(";");
        } else {
            self.write_branch(out, margin);
        }
    }

    /// Appends the statement to `out` as the body of a loop between `do`
    /// and the keyword of the condition.
    fn write_do(&self, out: &mut String, margin: &str)
        requires
            margin@ == spaces(margin@.len()),
        ensures
            final(out)@ == old(out)@ + do_text(self@, margin@.len()),
        decreases self, 3nat,
    {
        if self.is_noop() {
            out.append("; ");
        } else if self.is_block() {
            out.append(" ");
            self.write(out, margin);
            out.append(" ");
        } else {
            self.write_branch(out, margin);
            out.append("\n");
            out.append(margin);
        }
        assert(out@ =~= old(out)@ + do_text(self@, margin@.len()));
    }

    /// Appends the statement to `out` as a line of its own.
    fn write_line(&self, out: &mut String, margin: &str)
        requires
            margin@ == spaces(margin@.len()),
        ensures
            final(out)@ == old(out)@ + line_text(self@, margin@.len()),
        decreases self, 4nat,
    {
        out.append(margin);
        self.write(out, margin);
        out.append("\n");
        assert(out@ =~= old(out)@ + line_text(self@, margin@.len()));
    }

    /// The statement as a line of its own, or as several, indented by
    /// `indent` blanks.
    pub fn print(&self, indent: usize) -> (r: String)
        ensures
            r@ == line_text(self@, indent as nat),
    {
        let mut out = String::new();
        let margin = margin(indent);
        self.write_line(&mut out, margin.as_str());
        assert(out@ =~= line_text(self@, indent as nat));
        out
    }
}

impl Statements {
    /// The text of the statements: each in a line of its own, without
    /// those that do nothing.
    pub fn print(&self) -> (r: String)
        ensures
            r@ == lines_text(self@, 0),
    {
        let mut out = String::new();
        let margin = margin(0);
        write_lines(&self.0, &mut out, margin.as_str());
        assert(out@ =~= lines_text(self@, 0));
        out
    }
}

impl ArgumentList {
    /// Appends the formal arguments to `out`.
    fn write(&self, out: &mut String)
        ensures
            final(out)@ == old(out)@ + params_text(self@),
        decreases self,
    {
        match self {
            ArgumentList::Argument(ident, rest) => {
                out.append("argument ");
                out.append(ident.0.as_str());
                out.append("\n");
                rest.write(out);
                assert(out@ =~= old(out)@ + params_text(self@));
            },
            ArgumentList::DefaultArgument(ident, default, rest) => {
                out.append("argument ");
                out.append(ident.0.as_str());
                out.append(" = ");
                default.write(out);
                out.append("\n");
                rest.write(out);
                assert(out@ =~= old(out)@ + params_text(self@));
            },
            ArgumentList::OptionalArgument(ident, rest) => {
                out.append("argument ");
                out.append(ident.0.as_str());
                out.append("?\n");
                rest.write(out);
                assert(out@ =~= old(out)@ + params_text(self@));
            },
            ArgumentList::VariadicArgument(ident) => {
                out.append("argument ...");
                out.append(ident.0.as_str());
                out.append("\n");
                assert(out@ =~= old(out)@ + params_text(self@));
            },
            ArgumentList::End => {
                assert(out@ =~= old(out)@ + params_text(self@));
            },
        }
    }

    /// The text of the formal arguments.
    pub fn print(&self) -> (r: String)
        ensures
            r@ == params_text(self@),
    {
        let mut out = String::new();
        self.write(&mut out);
        assert(out@ =~= params_text(self@));
        out
    }
}

impl DocComment {
    /// Appends the doc comment lines to `out`.
    fn write(&self, out: &mut String)
        ensures
            final(out)@ == old(out)@ + docs_text(self@),
    {
        let mut i: usize = 0;
        assert(self@.take(0) =~= Seq::<Seq<char>>::empty());
        assert(out@ =~= old(out)@ + docs_text(self@.take(0)));
        while i < self.0.len()
            invariant
                i <= self.0.len(),
                out@ == old(out)@ + docs_text(self@.take(i as int)),
            decreases self.0.len() - i,
        {
            out.append("///");
            out.append(self.0[i].as_str());
            out.append("\n");
            proof {
                let next = self@.take(i + 1);
                assert(next.drop_last() =~= self@.take(i as int));
                assert(next.last() == self.0[i as int]@);
                assert(out@ =~= old(out)@ + docs_text(next));
            }
            i = i + 1;
        }
        assert(self@.take(i as int) =~= self@);
    }

    /// The text of the doc comment.
    pub fn print(&self) -> (r: String)
        ensures
            r@ == docs_text(self@),
    {
        let mut out = String::new();
        self.write(&mut out);
        assert(out@ =~= docs_text(self@));
        out
    }
}

impl Code {
    /// The text of the unit.
    pub fn print(&self) -> (r: String)
        ensures
            r@ == unit_text(self@),
    {
        let mut out = String::new();
        self.docs.write(&mut out);
        self.args.write(&mut out);
        let margin = margin(0);
        write_lines(&self.body.0, &mut out, margin.as_str());
        assert(out@ =~= unit_text(self@));
        out
    }
}

} // verus!
