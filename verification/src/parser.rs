use crate::error::{error_at, errors_view, push_error, LuxError, LuxErrorView};
use crate::expr::{exprs_view, Expr, ExprView};
use crate::function::{Function, FunctionView};
use crate::literal::{Literal, LiteralView};
use crate::scanner::{eof_token, push_token};
use crate::stmt::{stmts_view, Stmt, StmtView};
use crate::token::{tokens_view, Token, TokenView};
use crate::token_type::Types;
use std::rc::Rc;
use vstd::prelude::*;
use vstd::string::StringExecFns;

verus! {

/// What parsing one construct gives: the construct or the error, the position
/// of the next token, and the diagnostics recorded so far.
pub struct Parsed<T> {
    pub result: Result<T, LuxErrorView>,
    pub pos: int,
    pub errors: Seq<LuxErrorView>,
}

/// A construct that was parsed.
pub open spec fn done<T>(value: T, pos: int, errors: Seq<LuxErrorView>) -> Parsed<T> {
    Parsed { result: Ok(value), pos, errors }
}

/// A construct that could not be parsed.
pub open spec fn fail<T>(error: LuxErrorView, pos: int, errors: Seq<LuxErrorView>) -> Parsed<T> {
    Parsed { result: Err(error), pos, errors }
}

/// `parsed`, with its position held between `from` and the end of the tokens.
/// On tokens that end with `EOF` no construct ends before it starts or
/// behind the last token, so this changes nothing there; it shows that the
/// grammar's functions terminate.
pub open spec fn forward<T>(ts: Seq<TokenView>, from: int, parsed: Parsed<T>) -> Parsed<T> {
    if from <= parsed.pos <= ts.len() {
        parsed
    } else {
        Parsed { result: parsed.result, pos: from, errors: parsed.errors }
    }
}

/// `pos`, held behind `from` and within the tokens. On tokens that end with
/// `EOF` a construct that was parsed has taken a token, so this changes
/// nothing there; it shows that the grammar's functions terminate.
pub open spec fn beyond(ts: Seq<TokenView>, from: int, pos: int) -> int {
    if from < pos <= ts.len() {
        pos
    } else {
        from + 1
    }
}

/// The kind of the token at `pos`; `EOF` outside the tokens.
pub open spec fn kind_at(ts: Seq<TokenView>, pos: int) -> Types {
    if 0 <= pos < ts.len() {
        ts[pos].type_t
    } else {
        Types::EOF
    }
}

/// Whether the token at `pos` is of kind `kind` and is not the end.
pub open spec fn check_spec(ts: Seq<TokenView>, pos: int, kind: Types) -> bool {
    kind_at(ts, pos) != Types::EOF && kind_at(ts, pos) == kind
}

/// The number of the node whose token stands at `pos`: `base + pos`, wrapped
/// into 64 bits.
pub open spec fn node_id(base: u64, pos: int) -> u64 {
    if base + pos <= u64::MAX {
        (base + pos) as u64
    } else {
        (base + pos - u64::MAX - 1) as u64
    }
}

/// Takes the token at `pos` if it is of kind `kind`; the error `message` at
/// that token otherwise.
pub open spec fn consume_spec(
    ts: Seq<TokenView>,
    pos: int,
    errors: Seq<LuxErrorView>,
    kind: Types,
    message: Seq<char>,
) -> Parsed<TokenView> {
    if check_spec(ts, pos, kind) {
        done(ts[pos], pos + 1, errors)
    } else {
        fail(error_at(ts[pos], message), pos, errors)
    }
}

/// The operators of each precedence level, from the tightest: 0 factor,
/// 1 term, 2 comparison, 3 equality, 4 `and`, 5 `or`.
pub open spec fn is_operator(level: nat, kind: Types) -> bool {
    if level == 0 {
        kind == Types::SLASH || kind == Types::STAR
    } else if level == 1 {
        kind == Types::MINUS || kind == Types::PLUS
    } else if level == 2 {
        kind == Types::GREATER || kind == Types::GREATER_EQUAL || kind == Types::LESS || kind
            == Types::LESS_EQUAL
    } else if level == 3 {
        kind == Types::BANG_EQUAL || kind == Types::EQUAL_EQUAL
    } else if level == 4 {
        kind == Types::AND
    } else {
        kind == Types::OR
    }
}

/// The node of an operator of `level`: `Logical` for `and` and `or`, `Binary`
/// for the others.
pub open spec fn infix_node(
    level: nat,
    left: ExprView,
    operator: TokenView,
    right: ExprView,
) -> ExprView {
    if level >= 4 {
        ExprView::Logical { left: Box::new(left), operator, right: Box::new(right) }
    } else {
        ExprView::Binary { left: Box::new(left), right: Box::new(right), operator }
    }
}

/// primary → NUMBER | STRING | "true" | "false" | "nil" | "(" expression ")" | IDENT
pub open spec fn primary_spec(
    ts: Seq<TokenView>,
    base: u64,
    pos: int,
    errors: Seq<LuxErrorView>,
) -> Parsed<ExprView>
    decreases ts.len() - pos, 0nat,
{
    let kind = kind_at(ts, pos);
    if kind == Types::FALSE {
        done(ExprView::Literal { value: LiteralView::Bool(false) }, pos + 1, errors)
    } else if kind == Types::TRUE {
        done(ExprView::Literal { value: LiteralView::Bool(true) }, pos + 1, errors)
    } else if kind == Types::NIL {
        done(ExprView::Literal { value: LiteralView::Nil }, pos + 1, errors)
    } else if kind == Types::NUMBER || kind == Types::STRING {
        done(ExprView::Literal { value: ts[pos].literal }, pos + 1, errors)
    } else if kind == Types::LEFT_PAREN {
        let inner = forward(ts, pos + 1, expression_spec(ts, base, pos + 1, errors));
        match inner.result {
            Err(error) => fail(error, inner.pos, inner.errors),
            Ok(expression) => {
                let close = consume_spec(
                    ts,
                    inner.pos,
                    inner.errors,
                    Types::RIGHT_PAREN,
                    "Expect ')' after expression"@,
                );
                match close.result {
                    Err(error) => fail(error, close.pos, close.errors),
                    Ok(_) => done(
                        ExprView::Grouping { expression: Box::new(expression) },
                        close.pos,
                        close.errors,
                    ),
                }
            },
        }
    } else if kind == Types::IDENTIFIER {
        done(ExprView::Variable { name: ts[pos], id: node_id(base, pos) }, pos + 1, errors)
    } else {
        fail(error_at(ts[pos], "Expect expression."@), pos, errors)
    }
}

/// The argument lists that follow a callee.
pub open spec fn call_rest(
    ts: Seq<TokenView>,
    base: u64,
    callee: ExprView,
    pos: int,
    errors: Seq<LuxErrorView>,
) -> Parsed<ExprView>
    decreases ts.len() - pos, 0nat,
{
    if kind_at(ts, pos) == Types::LEFT_PAREN {
        let call = forward(ts, pos + 1, finish_call_spec(ts, base, callee, pos + 1, errors));
        match call.result {
            Err(error) => fail(error, call.pos, call.errors),
            Ok(expression) => call_rest(ts, base, expression, call.pos, call.errors),
        }
    } else {
        done(callee, pos, errors)
    }
}

/// call → primary ( "(" arguments? ")" )*
pub open spec fn call_spec(
    ts: Seq<TokenView>,
    base: u64,
    pos: int,
    errors: Seq<LuxErrorView>,
) -> Parsed<ExprView>
    decreases ts.len() - pos, 1nat,
{
    let callee = forward(ts, pos, primary_spec(ts, base, pos, errors));
    match callee.result {
        Err(error) => fail(error, callee.pos, callee.errors),
        Ok(expression) => call_rest(ts, base, expression, callee.pos, callee.errors),
    }
}

/// The arguments of a call, after those in `found`. From the 256th on, each
/// argument adds a diagnostic, and parsing goes on.
pub open spec fn arguments_spec(
    ts: Seq<TokenView>,
    base: u64,
    pos: int,
    errors: Seq<LuxErrorView>,
    found: Seq<ExprView>,
) -> Parsed<Seq<ExprView>>
    decreases ts.len() - pos, 11nat,
{
    let noted = if found.len() >= 255 {
        errors.push(error_at(ts[pos], "Can't have more than 255 arguments."@))
    } else {
        errors
    };
    let argument = forward(ts, pos, expression_spec(ts, base, pos, noted));
    match argument.result {
        Err(error) => fail(error, argument.pos, argument.errors),
        Ok(expression) => if kind_at(ts, argument.pos) == Types::COMMA {
            arguments_spec(ts, base, argument.pos + 1, argument.errors, found.push(expression))
        } else {
            done(found.push(expression), argument.pos, argument.errors)
        },
    }
}

/// A call, from behind its opening parenthesis.
pub open spec fn finish_call_spec(
    ts: Seq<TokenView>,
    base: u64,
    callee: ExprView,
    pos: int,
    errors: Seq<LuxErrorView>,
) -> Parsed<ExprView>
    decreases ts.len() - pos, 12nat,
{
    let arguments = if check_spec(ts, pos, Types::RIGHT_PAREN) {
        done(Seq::empty(), pos, errors)
    } else {
        forward(ts, pos, arguments_spec(ts, base, pos, errors, Seq::empty()))
    };
    match arguments.result {
        Err(error) => fail(error, arguments.pos, arguments.errors),
        Ok(found) => {
            let close = consume_spec(
                ts,
                arguments.pos,
                arguments.errors,
                Types::RIGHT_PAREN,
                "Expect ')' after arguments."@,
            );
            match close.result {
                Err(error) => fail(error, close.pos, close.errors),
                Ok(paren) => done(
                    ExprView::Call { callee: Box::new(callee), paren, arguments: found },
                    close.pos,
                    close.errors,
                ),
            }
        },
    }
}

/// unary → ( "!" | "-" ) unary | call
pub open spec fn unary_spec(
    ts: Seq<TokenView>,
    base: u64,
    pos: int,
    errors: Seq<LuxErrorView>,
) -> Parsed<ExprView>
    decreases ts.len() - pos, 2nat,
{
    if kind_at(ts, pos) == Types::BANG || kind_at(ts, pos) == Types::MINUS {
        let operand = forward(ts, pos + 1, unary_spec(ts, base, pos + 1, errors));
        match operand.result {
            Err(error) => fail(error, operand.pos, operand.errors),
            Ok(right) => done(
                ExprView::Unary { operator: ts[pos], right: Box::new(right) },
                operand.pos,
                operand.errors,
            ),
        }
    } else {
        call_spec(ts, base, pos, errors)
    }
}

/// The operators of `level` and their right operands that follow `left`; the
/// operators associate to the left.
pub open spec fn infix_rest(
    ts: Seq<TokenView>,
    base: u64,
    level: nat,
    left: ExprView,
    pos: int,
    errors: Seq<LuxErrorView>,
) -> Parsed<ExprView>
    decreases ts.len() - pos, 0nat,
{
    if is_operator(level, kind_at(ts, pos)) {
        let operand = forward(ts, pos + 1,
            if level == 0 {
                unary_spec(ts, base, pos + 1, errors)
            } else {
                infix_spec(ts, base, (level - 1) as nat, pos + 1, errors)
            },
        );
        match operand.result {
            Err(error) => fail(error, operand.pos, operand.errors),
            Ok(right) => infix_rest(
                ts,
                base,
                level,
                infix_node(level, left, ts[pos], right),
                operand.pos,
                operand.errors,
            ),
        }
    } else {
        done(left, pos, errors)
    }
}

/// An expression of the operators of `level` and of those that bind tighter.
pub open spec fn infix_spec(
    ts: Seq<TokenView>,
    base: u64,
    level: nat,
    pos: int,
    errors: Seq<LuxErrorView>,
) -> Parsed<ExprView>
    decreases ts.len() - pos, 3 + level,
{
    let operand = forward(ts, pos,
        if level == 0 {
            unary_spec(ts, base, pos, errors)
        } else {
            infix_spec(ts, base, (level - 1) as nat, pos, errors)
        },
    );
    match operand.result {
        Err(error) => fail(error, operand.pos, operand.errors),
        Ok(left) => infix_rest(ts, base, level, left, operand.pos, operand.errors),
    }
}

/// assignment → IDENT "=" assignment | logic_or
///
/// A target that is no variable gives "Invalid assignment target." at the
/// `=`, which is taken.
pub open spec fn assignment_spec(
    ts: Seq<TokenView>,
    base: u64,
    pos: int,
    errors: Seq<LuxErrorView>,
) -> Parsed<ExprView>
    decreases ts.len() - pos, 9nat,
{
    let target = forward(ts, pos, infix_spec(ts, base, 5, pos, errors));
    match target.result {
        Err(error) => fail(error, target.pos, target.errors),
        Ok(expression) => if kind_at(ts, target.pos) == Types::EQUAL {
            match expression {
                ExprView::Variable { name, id } => {
                    let assigned = forward(ts, target.pos + 1,
                        assignment_spec(ts, base, target.pos + 1, target.errors),
                    );
                    match assigned.result {
                        Err(error) => fail(error, assigned.pos, assigned.errors),
                        Ok(value) => done(
                            ExprView::Assign { name, value: Box::new(value), id },
                            assigned.pos,
                            assigned.errors,
                        ),
                    }
                },
                _ => fail(
                    error_at(ts[target.pos], "Invalid assignment target."@),
                    target.pos + 1,
                    target.errors,
                ),
            }
        } else {
            done(expression, target.pos, target.errors)
        },
    }
}

/// expression → assignment
pub open spec fn expression_spec(
    ts: Seq<TokenView>,
    base: u64,
    pos: int,
    errors: Seq<LuxErrorView>,
) -> Parsed<ExprView>
    decreases ts.len() - pos, 10nat,
{
    assignment_spec(ts, base, pos, errors)
}

/// An expression and the `;` that closes the statement.
pub open spec fn closed_expression(
    ts: Seq<TokenView>,
    base: u64,
    pos: int,
    errors: Seq<LuxErrorView>,
) -> Parsed<ExprView> {
    let value = forward(ts, pos, expression_spec(ts, base, pos, errors));
    match value.result {
        Err(error) => fail(error, value.pos, value.errors),
        Ok(expression) => {
            let close = consume_spec(
                ts,
                value.pos,
                value.errors,
                Types::SEMICOLON,
                "Expect ';' after value"@,
            );
            match close.result {
                Err(error) => fail(error, close.pos, close.errors),
                Ok(_) => done(expression, close.pos, close.errors),
            }
        },
    }
}

/// exprStmt → expression ";"
pub open spec fn expression_statement_spec(
    ts: Seq<TokenView>,
    base: u64,
    pos: int,
    errors: Seq<LuxErrorView>,
) -> Parsed<StmtView> {
    let value = closed_expression(ts, base, pos, errors);
    match value.result {
        Err(error) => fail(error, value.pos, value.errors),
        Ok(expression) => done(StmtView::Expression { expression }, value.pos, value.errors),
    }
}

/// printStmt → "print" expression ";", from behind `print`.
pub open spec fn print_statement_spec(
    ts: Seq<TokenView>,
    base: u64,
    pos: int,
    errors: Seq<LuxErrorView>,
) -> Parsed<StmtView> {
    let value = closed_expression(ts, base, pos, errors);
    match value.result {
        Err(error) => fail(error, value.pos, value.errors),
        Ok(expression) => done(StmtView::Print { expression }, value.pos, value.errors),
    }
}

/// returnStmt → "return" expression? ";", from behind `return`. Without an
/// expression the value is the `Nil` expression.
pub open spec fn return_statement_spec(
    ts: Seq<TokenView>,
    base: u64,
    pos: int,
    errors: Seq<LuxErrorView>,
) -> Parsed<StmtView> {
    let value = if check_spec(ts, pos, Types::SEMICOLON) {
        done(ExprView::Nil, pos, errors)
    } else {
        forward(ts, pos, expression_spec(ts, base, pos, errors))
    };
    match value.result {
        Err(error) => fail(error, value.pos, value.errors),
        Ok(expression) => {
            let close = consume_spec(
                ts,
                value.pos,
                value.errors,
                Types::SEMICOLON,
                "Expect ';' after return value."@,
            );
            match close.result {
                Err(error) => fail(error, close.pos, close.errors),
                Ok(_) => done(
                    StmtView::Return { keyword: ts[pos - 1], value: expression },
                    close.pos,
                    close.errors,
                ),
            }
        },
    }
}

/// varDecl → "var" IDENT ( "=" expression )? ";", from behind `var`. Without
/// an initializer it is the `Nil` expression.
pub open spec fn var_declaration_spec(
    ts: Seq<TokenView>,
    base: u64,
    pos: int,
    errors: Seq<LuxErrorView>,
) -> Parsed<StmtView> {
    let named = consume_spec(ts, pos, errors, Types::IDENTIFIER, "Expect a variable name."@);
    match named.result {
        Err(error) => fail(error, named.pos, named.errors),
        Ok(name) => {
            let value = if kind_at(ts, named.pos) == Types::EQUAL {
                forward(ts, named.pos + 1, expression_spec(ts, base, named.pos + 1, named.errors))
            } else {
                done(ExprView::Nil, named.pos, named.errors)
            };
            match value.result {
                Err(error) => fail(error, value.pos, value.errors),
                Ok(initializer) => {
                    let close = consume_spec(
                        ts,
                        value.pos,
                        value.errors,
                        Types::SEMICOLON,
                        "Expect ';' after variable declaration."@,
                    );
                    match close.result {
                        Err(error) => fail(error, close.pos, close.errors),
                        Ok(_) => done(
                            StmtView::Var { name, initializer },
                            close.pos,
                            close.errors,
                        ),
                    }
                },
            }
        },
    }
}

/// A condition between parentheses, as `if` and `while` take it.
pub open spec fn condition_spec(
    ts: Seq<TokenView>,
    base: u64,
    pos: int,
    errors: Seq<LuxErrorView>,
) -> Parsed<ExprView> {
    let open = consume_spec(ts, pos, errors, Types::LEFT_PAREN, "Expect '(' after 'if'."@);
    match open.result {
        Err(error) => fail(error, open.pos, open.errors),
        Ok(_) => {
            let value = forward(ts, open.pos, expression_spec(ts, base, open.pos, open.errors));
            match value.result {
                Err(error) => fail(error, value.pos, value.errors),
                Ok(condition) => {
                    let close = consume_spec(
                        ts,
                        value.pos,
                        value.errors,
                        Types::RIGHT_PAREN,
                        "Expect ')' after 'if'."@,
                    );
                    match close.result {
                        Err(error) => fail(error, close.pos, close.errors),
                        Ok(_) => done(condition, close.pos, close.errors),
                    }
                },
            }
        },
    }
}

/// The first clause of a `for`: nothing, a variable declaration, or an
/// expression statement.
pub open spec fn for_initializer_spec(
    ts: Seq<TokenView>,
    base: u64,
    pos: int,
    errors: Seq<LuxErrorView>,
) -> Parsed<Option<StmtView>> {
    if kind_at(ts, pos) == Types::SEMICOLON {
        done(None, pos + 1, errors)
    } else {
        let clause = if kind_at(ts, pos) == Types::VAR {
            forward(ts, pos + 1, var_declaration_spec(ts, base, pos + 1, errors))
        } else {
            forward(ts, pos, expression_statement_spec(ts, base, pos, errors))
        };
        match clause.result {
            Err(error) => fail(error, clause.pos, clause.errors),
            Ok(statement) => done(Some(statement), clause.pos, clause.errors),
        }
    }
}

/// A clause of a `for` that may be left out: an expression unless the token
/// of kind `closer` stands there, and then that token, with `message` where it
/// is missing.
pub open spec fn for_clause_spec(
    ts: Seq<TokenView>,
    base: u64,
    pos: int,
    errors: Seq<LuxErrorView>,
    closer: Types,
    message: Seq<char>,
) -> Parsed<Option<ExprView>> {
    let clause = if check_spec(ts, pos, closer) {
        done(None, pos, errors)
    } else {
        let value = forward(ts, pos, expression_spec(ts, base, pos, errors));
        match value.result {
            Err(error) => fail(error, value.pos, value.errors),
            Ok(expression) => done(Some(expression), value.pos, value.errors),
        }
    };
    match clause.result {
        Err(error) => fail(error, clause.pos, clause.errors),
        Ok(found) => {
            let close = consume_spec(ts, clause.pos, clause.errors, closer, message);
            match close.result {
                Err(error) => fail(error, close.pos, close.errors),
                Ok(_) => done(found, close.pos, close.errors),
            }
        },
    }
}

/// The statement that a `for` loop stands for: the body and the increment in
/// a block, under a `while` of the condition (`true` where there is none),
/// behind the initializer in a block.
pub open spec fn desugar_for(
    initializer: Option<StmtView>,
    condition: Option<ExprView>,
    increment: Option<ExprView>,
    body: StmtView,
) -> StmtView {
    let stepped = match increment {
        Some(expression) => StmtView::Block {
            statements: seq![body, StmtView::Expression { expression }],
        },
        None => body,
    };
    let looped = StmtView::While {
        condition: match condition {
            Some(expression) => expression,
            None => ExprView::Literal { value: LiteralView::Bool(true) },
        },
        body: Box::new(stepped),
    };
    match initializer {
        Some(statement) => StmtView::Block { statements: seq![statement, looped] },
        None => looped,
    }
}

/// Whether a token of kind `kind` starts a statement, so that recovery from
/// an error stops before it.
pub open spec fn starts_statement(kind: Types) -> bool {
    kind == Types::CLASS || kind == Types::FUN || kind == Types::VAR || kind == Types::FOR || kind
        == Types::IF || kind == Types::WHILE || kind == Types::PRINT || kind == Types::RETURN
}

/// The position after the token at `pos`; the end is never passed.
pub open spec fn advance_spec(ts: Seq<TokenView>, pos: int) -> int {
    if kind_at(ts, pos) != Types::EOF {
        pos + 1
    } else {
        pos
    }
}

/// The first position at or after `pos` that is the end, follows a `;`, or
/// starts a statement.
pub open spec fn synchronize_from(ts: Seq<TokenView>, pos: int) -> int
    decreases ts.len() - pos,
{
    if kind_at(ts, pos) == Types::EOF {
        pos
    } else if pos >= 1 && ts[pos - 1].type_t == Types::SEMICOLON {
        pos
    } else if starts_statement(kind_at(ts, pos)) {
        pos
    } else {
        synchronize_from(ts, pos + 1)
    }
}

/// Where parsing resumes after an error at `pos`: one token is skipped, and
/// then all up to a boundary between statements.
pub open spec fn synchronize_spec(ts: Seq<TokenView>, pos: int) -> int {
    synchronize_from(ts, advance_spec(ts, pos))
}

/// The parameters of a function, after those in `found`. From the 256th on,
/// each parameter adds a diagnostic, and parsing goes on.
pub open spec fn parameters_spec(
    ts: Seq<TokenView>,
    pos: int,
    errors: Seq<LuxErrorView>,
    found: Seq<TokenView>,
) -> Parsed<Seq<TokenView>>
    decreases ts.len() - pos,
{
    let noted = if found.len() >= 255 {
        errors.push(error_at(ts[pos], "Can't have more than 255 parameters."@))
    } else {
        errors
    };
    let parameter = consume_spec(ts, pos, noted, Types::IDENTIFIER, "Expect parameter name."@);
    match parameter.result {
        Err(error) => fail(error, parameter.pos, parameter.errors),
        Ok(name) => if kind_at(ts, parameter.pos) == Types::COMMA {
            parameters_spec(ts, parameter.pos + 1, parameter.errors, found.push(name))
        } else {
            done(found.push(name), parameter.pos, parameter.errors)
        },
    }
}

/// The name and the parameter list of a function, from behind `fun` up to the
/// `{` that opens the body.
pub open spec fn function_head_spec(
    ts: Seq<TokenView>,
    pos: int,
    errors: Seq<LuxErrorView>,
    kind: Seq<char>,
) -> Parsed<(TokenView, Seq<TokenView>)> {
    let named = consume_spec(ts, pos, errors, Types::IDENTIFIER, "Expect "@ + kind + " name."@);
    match named.result {
        Err(error) => fail(error, named.pos, named.errors),
        Ok(name) => {
            let open = consume_spec(
                ts,
                named.pos,
                named.errors,
                Types::LEFT_PAREN,
                "Expect '(' after 'if'."@,
            );
            match open.result {
                Err(error) => fail(error, open.pos, open.errors),
                Ok(_) => {
                    let parameters = if check_spec(ts, open.pos, Types::RIGHT_PAREN) {
                        done(Seq::empty(), open.pos, open.errors)
                    } else {
                        parameters_spec(ts, open.pos, open.errors, Seq::empty())
                    };
                    match parameters.result {
                        Err(error) => fail(error, parameters.pos, parameters.errors),
                        Ok(found) => {
                            let close = consume_spec(
                                ts,
                                parameters.pos,
                                parameters.errors,
                                Types::RIGHT_PAREN,
                                "Expect ')' after parameters."@,
                            );
                            match close.result {
                                Err(error) => fail(error, close.pos, close.errors),
                                Ok(_) => {
                                    let brace = consume_spec(
                                        ts,
                                        close.pos,
                                        close.errors,
                                        Types::LEFT_BRACE,
                                        "Expect '{' before "@ + kind + " body."@,
                                    );
                                    match brace.result {
                                        Err(error) => fail(error, brace.pos, brace.errors),
                                        Ok(_) => done((name, found), brace.pos, brace.errors),
                                    }
                                },
                            }
                        },
                    }
                },
            }
        },
    }
}

/// funDecl → "fun" IDENT "(" params? ")" block, from behind `fun`.
pub open spec fn function_spec(
    ts: Seq<TokenView>,
    base: u64,
    pos: int,
    errors: Seq<LuxErrorView>,
    kind: Seq<char>,
) -> Parsed<StmtView>
    decreases ts.len() - pos, 16nat,
{
    let head = function_head_spec(ts, pos, errors, kind);
    match head.result {
        Err(error) => fail(error, head.pos, head.errors),
        Ok(signature) => {
            let body = block_items_spec(
                ts,
                base,
                beyond(ts, pos, head.pos),
                head.errors,
                Seq::empty(),
            );
            match body.result {
                Err(error) => fail(error, body.pos, body.errors),
                Ok(statements) => done(
                    StmtView::Function(
                        FunctionView { name: signature.0, param: signature.1, body: statements },
                    ),
                    body.pos,
                    body.errors,
                ),
            }
        },
    }
}

/// ifStmt → "if" "(" expression ")" statement ( "else" statement )?, from
/// behind `if`.
pub open spec fn if_statement_spec(
    ts: Seq<TokenView>,
    base: u64,
    pos: int,
    errors: Seq<LuxErrorView>,
) -> Parsed<StmtView>
    decreases ts.len() - pos, 16nat,
{
    let tested = condition_spec(ts, base, pos, errors);
    match tested.result {
        Err(error) => fail(error, tested.pos, tested.errors),
        Ok(condition) => {
            let then = forward(ts, pos,
                statement_spec(ts, base, beyond(ts, pos, tested.pos), tested.errors),
            );
            match then.result {
                Err(error) => fail(error, then.pos, then.errors),
                Ok(then_branch) => if kind_at(ts, then.pos) == Types::ELSE {
                    let other = forward(ts, then.pos + 1,
                        statement_spec(ts, base, then.pos + 1, then.errors),
                    );
                    match other.result {
                        Err(error) => fail(error, other.pos, other.errors),
                        Ok(else_branch) => done(
                            StmtView::If {
                                condition,
                                then_branch: Box::new(then_branch),
                                else_branch: Some(Box::new(else_branch)),
                            },
                            other.pos,
                            other.errors,
                        ),
                    }
                } else {
                    done(
                        StmtView::If {
                            condition,
                            then_branch: Box::new(then_branch),
                            else_branch: None,
                        },
                        then.pos,
                        then.errors,
                    )
                },
            }
        },
    }
}

/// whileStmt → "while" "(" expression ")" statement, from behind `while`.
pub open spec fn while_statement_spec(
    ts: Seq<TokenView>,
    base: u64,
    pos: int,
    errors: Seq<LuxErrorView>,
) -> Parsed<StmtView>
    decreases ts.len() - pos, 16nat,
{
    let tested = condition_spec(ts, base, pos, errors);
    match tested.result {
        Err(error) => fail(error, tested.pos, tested.errors),
        Ok(condition) => {
            let looped = statement_spec(ts, base, beyond(ts, pos, tested.pos), tested.errors);
            match looped.result {
                Err(error) => fail(error, looped.pos, looped.errors),
                Ok(body) => done(
                    StmtView::While { condition, body: Box::new(body) },
                    looped.pos,
                    looped.errors,
                ),
            }
        },
    }
}

/// The three clauses of a `for`, from behind `for` up to the `)`.
pub open spec fn for_clauses_spec(
    ts: Seq<TokenView>,
    base: u64,
    pos: int,
    errors: Seq<LuxErrorView>,
) -> Parsed<(Option<StmtView>, Option<ExprView>, Option<ExprView>)> {
    let open = consume_spec(ts, pos, errors, Types::LEFT_PAREN, "Expect '(' after 'if'."@);
    match open.result {
        Err(error) => fail(error, open.pos, open.errors),
        Ok(_) => {
            let first = for_initializer_spec(ts, base, open.pos, open.errors);
            match first.result {
                Err(error) => fail(error, first.pos, first.errors),
                Ok(initializer) => {
                    let second = for_clause_spec(
                        ts,
                        base,
                        first.pos,
                        first.errors,
                        Types::SEMICOLON,
                        "Expect ';' after loop condition."@,
                    );
                    match second.result {
                        Err(error) => fail(error, second.pos, second.errors),
                        Ok(condition) => {
                            let third = for_clause_spec(
                                ts,
                                base,
                                second.pos,
                                second.errors,
                                Types::RIGHT_PAREN,
                                "Expect ')' after for clauses."@,
                            );
                            match third.result {
                                Err(error) => fail(error, third.pos, third.errors),
                                Ok(increment) => done(
                                    (initializer, condition, increment),
                                    third.pos,
                                    third.errors,
                                ),
                            }
                        },
                    }
                },
            }
        },
    }
}

/// forStmt → "for" "(" ( varDecl | exprStmt | ";" ) expression? ";"
/// expression? ")" statement, from behind `for`. There is no node for it: the
/// result is the block and `while` that it stands for.
pub open spec fn for_statement_spec(
    ts: Seq<TokenView>,
    base: u64,
    pos: int,
    errors: Seq<LuxErrorView>,
) -> Parsed<StmtView>
    decreases ts.len() - pos, 16nat,
{
    let clauses = for_clauses_spec(ts, base, pos, errors);
    match clauses.result {
        Err(error) => fail(error, clauses.pos, clauses.errors),
        Ok(found) => {
            let looped = statement_spec(ts, base, beyond(ts, pos, clauses.pos), clauses.errors);
            match looped.result {
                Err(error) => fail(error, looped.pos, looped.errors),
                Ok(body) => done(
                    desugar_for(found.0, found.1, found.2, body),
                    looped.pos,
                    looped.errors,
                ),
            }
        },
    }
}

/// statement → exprStmt | printStmt | block | ifStmt | whileStmt | forStmt |
/// returnStmt
pub open spec fn statement_spec(
    ts: Seq<TokenView>,
    base: u64,
    pos: int,
    errors: Seq<LuxErrorView>,
) -> Parsed<StmtView>
    decreases ts.len() - pos, 17nat,
{
    let kind = kind_at(ts, pos);
    if kind == Types::PRINT {
        print_statement_spec(ts, base, pos + 1, errors)
    } else if kind == Types::LEFT_BRACE {
        let body = block_items_spec(ts, base, pos + 1, errors, Seq::empty());
        match body.result {
            Err(error) => fail(error, body.pos, body.errors),
            Ok(statements) => done(StmtView::Block { statements }, body.pos, body.errors),
        }
    } else if kind == Types::IF {
        if_statement_spec(ts, base, pos + 1, errors)
    } else if kind == Types::WHILE {
        while_statement_spec(ts, base, pos + 1, errors)
    } else if kind == Types::FOR {
        for_statement_spec(ts, base, pos + 1, errors)
    } else if kind == Types::RETURN {
        return_statement_spec(ts, base, pos + 1, errors)
    } else {
        expression_statement_spec(ts, base, pos, errors)
    }
}

/// declaration → funDecl | varDecl | statement
///
/// An error is recorded, and the position moves on to the next boundary
/// between statements.
pub open spec fn declaration_spec(
    ts: Seq<TokenView>,
    base: u64,
    pos: int,
    errors: Seq<LuxErrorView>,
) -> Parsed<StmtView>
    decreases ts.len() - pos, 18nat,
{
    let kind = kind_at(ts, pos);
    let parsed = if kind == Types::FUN {
        function_spec(ts, base, pos + 1, errors, "function"@)
    } else if kind == Types::VAR {
        var_declaration_spec(ts, base, pos + 1, errors)
    } else {
        statement_spec(ts, base, pos, errors)
    };
    match parsed.result {
        Ok(_) => parsed,
        Err(error) => fail(error, synchronize_spec(ts, parsed.pos), parsed.errors.push(error)),
    }
}

/// `found` with the statement of `result` appended, where there is one.
pub open spec fn kept(found: Seq<StmtView>, result: Result<StmtView, LuxErrorView>) -> Seq<
    StmtView,
> {
    match result {
        Ok(statement) => found.push(statement),
        Err(_) => found,
    }
}

/// block → "{" declaration* "}", from behind the `{`, after the statements in
/// `found`. A declaration that fails is left out, and the block goes on.
pub open spec fn block_items_spec(
    ts: Seq<TokenView>,
    base: u64,
    pos: int,
    errors: Seq<LuxErrorView>,
    found: Seq<StmtView>,
) -> Parsed<Seq<StmtView>>
    decreases ts.len() - pos, 19nat,
{
    if kind_at(ts, pos) == Types::RIGHT_BRACE || kind_at(ts, pos) == Types::EOF {
        let close = consume_spec(ts, pos, errors, Types::RIGHT_BRACE, "Expect '}' after block."@);
        match close.result {
            Err(error) => fail(error, close.pos, close.errors),
            Ok(_) => done(found, close.pos, close.errors),
        }
    } else {
        let item = forward(ts, pos + 1, declaration_spec(ts, base, pos, errors));
        block_items_spec(ts, base, item.pos, item.errors, kept(found, item.result))
    }
}

/// program → declaration* EOF, after the statements in `found`. A declaration
/// that fails is left out, and the program goes on.
pub open spec fn program_spec(
    ts: Seq<TokenView>,
    base: u64,
    pos: int,
    errors: Seq<LuxErrorView>,
    found: Seq<StmtView>,
) -> Parsed<Seq<StmtView>>
    decreases ts.len() - pos, 20nat,
{
    if kind_at(ts, pos) == Types::EOF {
        done(found, pos, errors)
    } else {
        let item = forward(ts, pos + 1, declaration_spec(ts, base, pos, errors));
        program_spec(ts, base, item.pos, item.errors, kept(found, item.result))
    }
}

/// What `parse` returns: the statements where no diagnostic was recorded, the
/// first diagnostic otherwise.
pub open spec fn parse_result(program: Parsed<Seq<StmtView>>) -> Result<
    Seq<StmtView>,
    LuxErrorView,
> {
    if program.errors.len() == 0 {
        program.result
    } else {
        Err(program.errors[0])
    }
}

/// `ts` if it ends with `EOF`; otherwise `ts` with an `EOF` token added, on
/// the line of the last token (on line 1 where there is none).
pub open spec fn terminated(ts: Seq<TokenView>) -> Seq<TokenView> {
    if ts.len() > 0 && ts.last().type_t == Types::EOF {
        ts
    } else {
        ts.push(
            eof_token(
                if ts.len() > 0 {
                    ts.last().line
                } else {
                    1
                },
            ),
        )
    }
}

/// What the result of parsing an expression stands for.
pub open spec fn expr_result(r: Result<Expr, LuxError>) -> Result<ExprView, LuxErrorView> {
    match r {
        Ok(value) => Ok(value@),
        Err(error) => Err(error@),
    }
}

/// What the result of parsing a statement stands for.
pub open spec fn stmt_result(r: Result<Stmt, LuxError>) -> Result<StmtView, LuxErrorView> {
    match r {
        Ok(value) => Ok(value@),
        Err(error) => Err(error@),
    }
}

/// What the result of parsing a list of statements stands for.
pub open spec fn stmts_result(r: Result<Vec<Stmt>, LuxError>) -> Result<
    Seq<StmtView>,
    LuxErrorView,
> {
    match r {
        Ok(value) => Ok(stmts_view(&value)),
        Err(error) => Err(error@),
    }
}

/// What the result of taking a token stands for.
pub open spec fn token_result(r: Result<Token, LuxError>) -> Result<TokenView, LuxErrorView> {
    match r {
        Ok(value) => Ok(value@),
        Err(error) => Err(error@),
    }
}

/// Appends an expression to a list.
pub fn push_expr(exprs: &mut Vec<Expr>, expr: Expr)
    ensures
        exprs_view(final(exprs)) == exprs_view(old(exprs)).push(expr@),
{
    exprs.push(expr);
    assert(exprs_view(exprs) =~= exprs_view(old(exprs)).push(expr@));
}

/// Appends a statement to a list.
pub fn push_stmt(stmts: &mut Vec<Stmt>, stmt: Stmt)
    ensures
        stmts_view(final(stmts)) == stmts_view(old(stmts)).push(stmt@),
{
    stmts.push(stmt);
    assert(stmts_view(stmts) =~= stmts_view(old(stmts)).push(stmt@));
}

fn no_exprs() -> (exprs: Vec<Expr>)
    ensures
        exprs_view(&exprs) == Seq::<ExprView>::empty(),
{
    let exprs: Vec<Expr> = Vec::new();
    assert(exprs_view(&exprs) =~= Seq::<ExprView>::empty());
    exprs
}

fn no_stmts() -> (stmts: Vec<Stmt>)
    ensures
        stmts_view(&stmts) == Seq::<StmtView>::empty(),
{
    let stmts: Vec<Stmt> = Vec::new();
    assert(stmts_view(&stmts) =~= Seq::<StmtView>::empty());
    stmts
}

fn no_tokens() -> (tokens: Vec<Token>)
    ensures
        tokens_view(&tokens) == Seq::<TokenView>::empty(),
{
    let tokens: Vec<Token> = Vec::new();
    assert(tokens_view(&tokens) =~= Seq::<TokenView>::empty());
    tokens
}

fn two_stmts(first: Stmt, second: Stmt) -> (stmts: Vec<Stmt>)
    ensures
        stmts_view(&stmts) == seq![first@, second@],
{
    let mut stmts = no_stmts();
    push_stmt(&mut stmts, first);
    push_stmt(&mut stmts, second);
    stmts
}

/// A recursive-descent parser over a token sequence that ends with `EOF`.
pub struct Parser {
    pub tokens: Vec<Token>,
    pub current: usize,
    pub errors: Vec<LuxError>,
    pub base: u64,
}

impl Parser {
    /// The tokens end with `EOF`, and the position lies within them.
    pub open spec fn wf(&self) -> bool {
        &&& self.tokens.len() > 0
        &&& self.ts().len() == self.tokens.len()
        &&& kind_at(self.ts(), self.tokens.len() - 1) == Types::EOF
        &&& self.current < self.tokens.len()
    }

    /// The tokens, as the grammar sees them.
    pub open spec fn ts(&self) -> Seq<TokenView> {
        tokens_view(&self.tokens)
    }

    /// The diagnostics recorded so far.
    pub open spec fn errs(&self) -> Seq<LuxErrorView> {
        errors_view(&self.errors)
    }

    /// The parser is `before` at a later position: same tokens, same numbering.
    pub open spec fn continues(self, before: Parser) -> bool {
        &&& self.wf()
        &&& self.tokens == before.tokens
        &&& self.base == before.base
        &&& self.current >= before.current
    }

    /// The parser stands where `parsed` ends.
    pub open spec fn reached<T>(self, parsed: Parsed<T>) -> bool {
        self.current == parsed.pos && self.errs() == parsed.errors
    }

    /// A parser at the start of `tokens`, whose nodes are numbered from 0. An
    /// `EOF` token is added where `tokens` does not end with one.
    pub fn new(tokens: Vec<Token>) -> (parser: Parser)
        ensures
            parser.wf(),
            parser.current == 0,
            parser.base == 0,
            parser.errs() == Seq::<LuxErrorView>::empty(),
            parser.ts() == terminated(tokens_view(&tokens)),
    {
        Self::with_base(tokens, 0)
    }

    /// A parser at the start of `tokens`, whose nodes are numbered from `base`.
    pub fn with_base(tokens: Vec<Token>, base: u64) -> (parser: Parser)
        ensures
            parser.wf(),
            parser.current == 0,
            parser.base == base,
            parser.errs() == Seq::<LuxErrorView>::empty(),
            parser.ts() == terminated(tokens_view(&tokens)),
    {
        let ghost given = tokens_view(&tokens);
        let mut tokens = tokens;
        let n = tokens.len();
        if n == 0 || tokens[n - 1].type_t != Types::EOF {
            let line = if n > 0 {
                tokens[n - 1].line
            } else {
                1
            };
            push_token(&mut tokens, Token::new(Types::EOF, "".to_string(), Literal::Nil, line));
            assert(tokens_view(&tokens)[n as int].type_t == Types::EOF);
        } else {
            assert(tokens_view(&tokens)[n - 1].type_t == Types::EOF);
            assert(tokens_view(&tokens).last() == tokens_view(&tokens)[n - 1]);
        }
        assert(tokens_view(&tokens).len() == tokens.len());
        let parser = Parser { tokens, current: 0, errors: Vec::new(), base };
        assert(parser.errs() =~= Seq::<LuxErrorView>::empty());
        parser
    }

    fn peek(&self) -> (token: &Token)
        requires
            self.wf(),
        ensures
            *token == self.tokens@[self.current as int],
            token@ == self.ts()[self.current as int],
            token.type_t == kind_at(self.ts(), self.current as int),
    {
        &self.tokens[self.current]
    }

    fn previous(&self) -> (token: &Token)
        requires
            1 <= self.current <= self.tokens.len(),
        ensures
            *token == self.tokens@[self.current - 1],
            token@ == self.ts()[self.current - 1],
    {
        &self.tokens[self.current - 1]
    }

    fn is_at_end(&self) -> (r: bool)
        requires
            self.wf(),
        ensures
            r == (kind_at(self.ts(), self.current as int) == Types::EOF),
    {
        self.peek().type_t == Types::EOF
    }

    fn check(&self, token_type: Types) -> (r: bool)
        requires
            self.wf(),
        ensures
            r == check_spec(self.ts(), self.current as int, token_type),
    {
        if self.is_at_end() {
            return false;
        }
        self.peek().type_t == token_type
    }

    fn advance(&mut self)
        requires
            old(self).wf(),
        ensures
            final(self).wf(),
            *final(self) == (Parser {
                current: advance_spec(old(self).ts(), old(self).current as int) as usize,
                ..*old(self)
            }),
            final(self).current >= 1 || kind_at(old(self).ts(), old(self).current as int)
                == Types::EOF,
    {
        if !self.is_at_end() {
            self.current += 1;
        }
    }

    fn matches(&mut self, token_type: Types) -> (r: bool)
        requires
            old(self).wf(),
        ensures
            final(self).wf(),
            r == check_spec(old(self).ts(), old(self).current as int, token_type),
            *final(self) == (Parser {
                current: if r {
                    (old(self).current + 1) as usize
                } else {
                    old(self).current
                },
                ..*old(self)
            }),
    {
        if self.check(token_type) {
            self.advance();
            true
        } else {
            false
        }
    }

    fn error(&self, token: &Token, message: &str) -> (error: LuxError)
        ensures
            error@ == error_at(token@, message@),
    {
        LuxError::new(token, message)
    }

    fn record(&mut self, error: LuxError)
        ensures
            final(self).errs() == old(self).errs().push(error@),
            *final(self) == (Parser { errors: final(self).errors, ..*old(self) }),
    {
        push_error(&mut self.errors, error);
    }

    fn consume(&mut self, token_type: Types, message: &str) -> (r: Result<Token, LuxError>)
        requires
            old(self).wf(),
        ensures
            final(self).continues(*old(self)),
            ({
                let p = consume_spec(
                    old(self).ts(),
                    old(self).current as int,
                    old(self).errs(),
                    token_type,
                    message@,
                );
                final(self).reached(p) && token_result(r) == p.result
            }),
            final(self).errors == old(self).errors,
    {
        if self.check(token_type) {
            self.advance();
            Ok(self.previous().clone())
        } else {
            Err(self.error(self.peek(), message))
        }
    }

    fn number_of(&self, pos: usize) -> (id: u64)
        ensures
            id == node_id(self.base, pos as int),
    {
        let offset = pos as u64;
        if offset <= u64::MAX - self.base {
            self.base + offset
        } else {
            offset - (u64::MAX - self.base) - 1
        }
    }

    fn at_boundary(&self) -> (r: bool)
        requires
            self.wf(),
        ensures
            r == (synchronize_from(self.ts(), self.current as int) == self.current),
    {
        if self.is_at_end() {
            true
        } else if self.current >= 1 && self.previous().type_t == Types::SEMICOLON {
            true
        } else {
            let kind = self.peek().type_t;
            let r = kind == Types::CLASS || kind == Types::FUN || kind == Types::VAR || kind
                == Types::FOR || kind == Types::IF || kind == Types::WHILE || kind == Types::PRINT
                || kind == Types::RETURN;
            proof {
                if !r {
                    lemma_synchronize_from(self.ts(), self.current + 1);
                }
            }
            r
        }
    }

    /// Skips one token, and then all up to a boundary between statements.
    fn synchronize(&mut self)
        requires
            old(self).wf(),
        ensures
            final(self).continues(*old(self)),
            final(self).errors == old(self).errors,
            final(self).current == synchronize_spec(old(self).ts(), old(self).current as int),
            kind_at(old(self).ts(), old(self).current as int) != Types::EOF ==> final(self).current
                > old(self).current,
    {
        self.advance();
        while !self.at_boundary()
            invariant
                self.continues(*old(self)),
                self.errors == old(self).errors,
                self.current >= advance_spec(old(self).ts(), old(self).current as int),
                synchronize_from(self.ts(), self.current as int) == synchronize_spec(
                    old(self).ts(),
                    old(self).current as int,
                ),
            decreases self.tokens.len() - self.current,
        {
            self.advance();
        }
    }

    /// Parses a whole program. Every diagnostic is recorded in `errors`; the
    /// statements are returned where there is none, the first one otherwise.
    pub fn parse(&mut self) -> (r: Result<Vec<Stmt>, LuxError>)
        requires
            old(self).wf(),
        ensures
            final(self).continues(*old(self)),
            ({
                let p = program_spec(
                    old(self).ts(),
                    old(self).base,
                    old(self).current as int,
                    old(self).errs(),
                    Seq::empty(),
                );
                final(self).reached(p) && stmts_result(r) == parse_result(p)
            }),
    {
        let mut statements = no_stmts();
        while !self.is_at_end()
            invariant
                self.continues(*old(self)),
                program_spec(
                    self.ts(),
                    self.base,
                    self.current as int,
                    self.errs(),
                    stmts_view(&statements),
                ) == program_spec(
                    old(self).ts(),
                    old(self).base,
                    old(self).current as int,
                    old(self).errs(),
                    Seq::empty(),
                ),
            decreases self.tokens.len() - self.current,
        {
            match self.declaration() {
                Ok(statement) => {
                    push_stmt(&mut statements, statement);
                },
                Err(_) => {},
            }
        }
        if self.errors.len() == 0 {
            Ok(statements)
        } else {
            Err(self.errors[0].clone())
        }
    }

    fn declaration(&mut self) -> (r: Result<Stmt, LuxError>)
        requires
            old(self).wf(),
        ensures
            final(self).continues(*old(self)),
            ({
                let p = declaration_spec(
                    old(self).ts(),
                    old(self).base,
                    old(self).current as int,
                    old(self).errs(),
                );
                final(self).reached(p) && stmt_result(r) == p.result
            }),
            kind_at(old(self).ts(), old(self).current as int) != Types::EOF ==> final(self).current
                > old(self).current,
        decreases old(self).tokens.len() - old(self).current, 18nat,
    {
        let parsed = if self.matches(Types::FUN) {
            self.function("function")
        } else if self.matches(Types::VAR) {
            self.var_declaration()
        } else {
            self.statement()
        };
        match parsed {
            Ok(statement) => Ok(statement),
            Err(error) => {
                self.record(error.clone());
                self.synchronize();
                Err(error)
            },
        }
    }

    fn parameters(&mut self) -> (r: Result<Vec<Token>, LuxError>)
        requires
            old(self).wf(),
        ensures
            final(self).continues(*old(self)),
            ({
                let p = if check_spec(old(self).ts(), old(self).current as int, Types::RIGHT_PAREN) {
                    done(Seq::empty(), old(self).current as int, old(self).errs())
                } else {
                    parameters_spec(
                        old(self).ts(),
                        old(self).current as int,
                        old(self).errs(),
                        Seq::empty(),
                    )
                };
                final(self).reached(p) && match (r, p.result) {
                    (Ok(found), Ok(expected)) => tokens_view(&found) == expected,
                    (Err(error), Err(expected)) => error@ == expected,
                    _ => false,
                }
            }),
    {
        let mut parameters = no_tokens();
        let mut more = !self.check(Types::RIGHT_PAREN);
        while more
            invariant
                self.continues(*old(self)),
                (if check_spec(old(self).ts(), old(self).current as int, Types::RIGHT_PAREN) {
                    done(Seq::empty(), old(self).current as int, old(self).errs())
                } else {
                    parameters_spec(
                        old(self).ts(),
                        old(self).current as int,
                        old(self).errs(),
                        Seq::empty(),
                    )
                }) == if more {
                    parameters_spec(
                        self.ts(),
                        self.current as int,
                        self.errs(),
                        tokens_view(&parameters),
                    )
                } else {
                    done(tokens_view(&parameters), self.current as int, self.errs())
                },
            decreases
                    self.tokens.len() - self.current,
                    if more {
                        1nat
                    } else {
                        0nat
                    },
        {
            if parameters.len() >= 255 {
                let error = self.error(self.peek(), "Can't have more than 255 parameters.");
                self.record(error);
            }
            let token = match self.consume(Types::IDENTIFIER, "Expect parameter name.") {
                Ok(token) => token,
                Err(error) => {
                    return Err(error);
                },
            };
            push_token(&mut parameters, token);
            more = self.matches(Types::COMMA);
        }
        Ok(parameters)
    }

    fn function_head(&mut self, kind: &str) -> (r: Result<(Token, Vec<Token>), LuxError>)
        requires
            old(self).wf(),
        ensures
            final(self).continues(*old(self)),
            ({
                let p = function_head_spec(
                    old(self).ts(),
                    old(self).current as int,
                    old(self).errs(),
                    kind@,
                );
                final(self).reached(p) && match (r, p.result) {
                    (Ok(found), Ok(expected)) => found.0@ == expected.0 && tokens_view(&found.1)
                        == expected.1,
                    (Err(error), Err(expected)) => error@ == expected,
                    _ => false,
                }
            }),
            r is Ok ==> final(self).current > old(self).current,
    {
        let mut name_message = "Expect ".to_string();
        name_message.append(kind);
        name_message.append(" name.");
        let name = match self.consume(Types::IDENTIFIER, name_message.as_str()) {
            Ok(token) => token,
            Err(error) => {
                return Err(error);
            },
        };
        match self.consume(Types::LEFT_PAREN, "Expect '(' after 'if'.") {
            Ok(_) => {},
            Err(error) => {
                return Err(error);
            },
        }
        let parameters = match self.parameters() {
            Ok(found) => found,
            Err(error) => {
                return Err(error);
            },
        };
        match self.consume(Types::RIGHT_PAREN, "Expect ')' after parameters.") {
            Ok(_) => {},
            Err(error) => {
                return Err(error);
            },
        }
        let mut body_message = "Expect '{' before ".to_string();
        body_message.append(kind);
        body_message.append(" body.");
        match self.consume(Types::LEFT_BRACE, body_message.as_str()) {
            Ok(_) => Ok((name, parameters)),
            Err(error) => Err(error),
        }
    }

    fn function(&mut self, kind: &str) -> (r: Result<Stmt, LuxError>)
        requires
            old(self).wf(),
        ensures
            final(self).continues(*old(self)),
            ({
                let p = function_spec(
                    old(self).ts(),
                    old(self).base,
                    old(self).current as int,
                    old(self).errs(),
                    kind@,
                );
                final(self).reached(p) && stmt_result(r) == p.result
            }),
        decreases old(self).tokens.len() - old(self).current, 16nat,
    {
        proof {
            reveal_with_fuel(Stmt::view, 3);
        }
        let (name, parameters) = match self.function_head(kind) {
            Ok(head) => head,
            Err(error) => {
                return Err(error);
            },
        };
        match self.block() {
            Ok(body) => Ok(Stmt::Function(Rc::new(Function { body, name, param: parameters }))),
            Err(error) => Err(error),
        }
    }

    fn var_declaration(&mut self) -> (r: Result<Stmt, LuxError>)
        requires
            old(self).wf(),
        ensures
            final(self).continues(*old(self)),
            ({
                let p = var_declaration_spec(
                    old(self).ts(),
                    old(self).base,
                    old(self).current as int,
                    old(self).errs(),
                );
                final(self).reached(p) && stmt_result(r) == p.result
            }),
            r is Ok ==> final(self).current > old(self).current,
    {
        proof {
            reveal_with_fuel(Stmt::view, 3);
        }
        let name = match self.consume(Types::IDENTIFIER, "Expect a variable name.") {
            Ok(token) => token,
            Err(error) => {
                return Err(error);
            },
        };
        let initializer = if self.matches(Types::EQUAL) {
            match self.expression() {
                Ok(expression) => expression,
                Err(error) => {
                    return Err(error);
                },
            }
        } else {
            Expr::Nil
        };
        match self.consume(Types::SEMICOLON, "Expect ';' after variable declaration.") {
            Ok(_) => {},
            Err(error) => {
                return Err(error);
            },
        }
        Ok(Stmt::Var { name, initializer: Box::new(initializer) })
    }

    fn statement(&mut self) -> (r: Result<Stmt, LuxError>)
        requires
            old(self).wf(),
        ensures
            final(self).continues(*old(self)),
            ({
                let p = statement_spec(
                    old(self).ts(),
                    old(self).base,
                    old(self).current as int,
                    old(self).errs(),
                );
                final(self).reached(p) && stmt_result(r) == p.result
            }),
            r is Ok ==> final(self).current > old(self).current,
        decreases old(self).tokens.len() - old(self).current, 17nat,
    {
        if self.matches(Types::PRINT) {
            self.print_statement()
        } else if self.matches(Types::LEFT_BRACE) {
            match self.block() {
                Ok(statements) => Ok(Stmt::Block { statements }),
                Err(error) => Err(error),
            }
        } else if self.matches(Types::IF) {
            self.if_statement()
        } else if self.matches(Types::WHILE) {
            self.while_statement()
        } else if self.matches(Types::FOR) {
            self.for_statement()
        } else if self.matches(Types::RETURN) {
            self.return_statement()
        } else {
            self.expression_statement()
        }
    }

    fn return_statement(&mut self) -> (r: Result<Stmt, LuxError>)
        requires
            old(self).wf(),
            old(self).current >= 1,
        ensures
            final(self).continues(*old(self)),
            ({
                let p = return_statement_spec(
                    old(self).ts(),
                    old(self).base,
                    old(self).current as int,
                    old(self).errs(),
                );
                final(self).reached(p) && stmt_result(r) == p.result
            }),
    {
        proof {
            reveal_with_fuel(Stmt::view, 3);
        }
        let keyword = self.previous().clone();
        let value = if !self.check(Types::SEMICOLON) {
            match self.expression() {
                Ok(expression) => expression,
                Err(error) => {
                    return Err(error);
                },
            }
        } else {
            Expr::Nil
        };
        match self.consume(Types::SEMICOLON, "Expect ';' after return value.") {
            Ok(_) => {},
            Err(error) => {
                return Err(error);
            },
        }
        Ok(Stmt::Return { keyword, value: Box::new(value) })
    }

    fn condition(&mut self) -> (r: Result<Expr, LuxError>)
        requires
            old(self).wf(),
        ensures
            final(self).continues(*old(self)),
            ({
                let p = condition_spec(
                    old(self).ts(),
                    old(self).base,
                    old(self).current as int,
                    old(self).errs(),
                );
                final(self).reached(p) && expr_result(r) == p.result
            }),
            r is Ok ==> final(self).current > old(self).current,
    {
        match self.consume(Types::LEFT_PAREN, "Expect '(' after 'if'.") {
            Ok(_) => {},
            Err(error) => {
                return Err(error);
            },
        }
        let condition = match self.expression() {
            Ok(expression) => expression,
            Err(error) => {
                return Err(error);
            },
        };
        match self.consume(Types::RIGHT_PAREN, "Expect ')' after 'if'.") {
            Ok(_) => {},
            Err(error) => {
                return Err(error);
            },
        }
        Ok(condition)
    }

    fn for_initializer(&mut self) -> (r: Result<Option<Stmt>, LuxError>)
        requires
            old(self).wf(),
        ensures
            final(self).continues(*old(self)),
            ({
                let p = for_initializer_spec(
                    old(self).ts(),
                    old(self).base,
                    old(self).current as int,
                    old(self).errs(),
                );
                final(self).reached(p) && match (r, p.result) {
                    (Ok(Some(found)), Ok(Some(expected))) => found@ == expected,
                    (Ok(None), Ok(None)) => true,
                    (Err(error), Err(expected)) => error@ == expected,
                    _ => false,
                }
            }),
    {
        if self.matches(Types::SEMICOLON) {
            Ok(None)
        } else if self.matches(Types::VAR) {
            match self.var_declaration() {
                Ok(statement) => Ok(Some(statement)),
                Err(error) => Err(error),
            }
        } else {
            match self.expression_statement() {
                Ok(statement) => Ok(Some(statement)),
                Err(error) => Err(error),
            }
        }
    }

    fn for_clause(&mut self, closer: Types, message: &str) -> (r: Result<Option<Expr>, LuxError>)
        requires
            old(self).wf(),
        ensures
            final(self).continues(*old(self)),
            ({
                let p = for_clause_spec(
                    old(self).ts(),
                    old(self).base,
                    old(self).current as int,
                    old(self).errs(),
                    closer,
                    message@,
                );
                final(self).reached(p) && match (r, p.result) {
                    (Ok(Some(found)), Ok(Some(expected))) => found@ == expected,
                    (Ok(None), Ok(None)) => true,
                    (Err(error), Err(expected)) => error@ == expected,
                    _ => false,
                }
            }),
            r is Ok ==> final(self).current > old(self).current,
    {
        let clause = if !self.check(closer) {
            match self.expression() {
                Ok(expression) => Some(expression),
                Err(error) => {
                    return Err(error);
                },
            }
        } else {
            None
        };
        match self.consume(closer, message) {
            Ok(_) => Ok(clause),
            Err(error) => Err(error),
        }
    }

    /// The block and `while` that a `for` loop with these parts stands for.
    fn desugar(
        initializer: Option<Stmt>,
        condition: Option<Expr>,
        increment: Option<Expr>,
        body: Stmt,
    ) -> (r: Stmt)
        ensures
            r@ == desugar_for(
                match initializer {
                    Some(statement) => Some(statement@),
                    None => None,
                },
                match condition {
                    Some(expression) => Some(expression@),
                    None => None,
                },
                match increment {
                    Some(expression) => Some(expression@),
                    None => None,
                },
                body@,
            ),
    {
        proof {
            reveal_with_fuel(Stmt::view, 3);
        }
        let stepped = match increment {
            Some(inc) => {
                let step = Stmt::Expression { expression: Box::new(inc) };
                Stmt::Block { statements: two_stmts(body, step) }
            },
            None => body,
        };
        let test = match condition {
            Some(cnd) => cnd,
            None => Expr::Literal { value: Literal::Bool(true) },
        };
        let looped = Stmt::While { condition: Box::new(test), body: Box::new(stepped) };
        match initializer {
            Some(first) => Stmt::Block { statements: two_stmts(first, looped) },
            None => looped,
        }
    }

    /// Parses a `for` statement from behind `for`. There is no node for it:
    /// the statement is the block of the initializer and a `while` loop of
    /// the condition, whose body is the block of the loop's body and the
    /// increment; a clause that is left out leaves out its part.
    pub fn for_statement(&mut self) -> (r: Result<Stmt, LuxError>)
        requires
            old(self).wf(),
        ensures
            final(self).continues(*old(self)),
            ({
                let p = for_statement_spec(
                    old(self).ts(),
                    old(self).base,
                    old(self).current as int,
                    old(self).errs(),
                );
                final(self).reached(p) && stmt_result(r) == p.result
            }),
        decreases old(self).tokens.len() - old(self).current, 16nat,
    {
        match self.consume(Types::LEFT_PAREN, "Expect '(' after 'if'.") {
            Ok(_) => {},
            Err(error) => {
                return Err(error);
            },
        }
        let initializer = match self.for_initializer() {
            Ok(clause) => clause,
            Err(error) => {
                return Err(error);
            },
        };
        let condition = match self.for_clause(Types::SEMICOLON, "Expect ';' after loop condition.")
        {
            Ok(clause) => clause,
            Err(error) => {
                return Err(error);
            },
        };
        let increment = match self.for_clause(Types::RIGHT_PAREN, "Expect ')' after for clauses.") {
            Ok(clause) => clause,
            Err(error) => {
                return Err(error);
            },
        };
        let body = match self.statement() {
            Ok(statement) => statement,
            Err(error) => {
                return Err(error);
            },
        };
        Ok(Self::desugar(initializer, condition, increment, body))
    }

    fn while_statement(&mut self) -> (r: Result<Stmt, LuxError>)
        requires
            old(self).wf(),
        ensures
            final(self).continues(*old(self)),
            ({
                let p = while_statement_spec(
                    old(self).ts(),
                    old(self).base,
                    old(self).current as int,
                    old(self).errs(),
                );
                final(self).reached(p) && stmt_result(r) == p.result
            }),
        decreases old(self).tokens.len() - old(self).current, 16nat,
    {
        let condition = match self.condition() {
            Ok(expression) => Box::new(expression),
            Err(error) => {
                return Err(error);
            },
        };
        let body = match self.statement() {
            Ok(statement) => Box::new(statement),
            Err(error) => {
                return Err(error);
            },
        };
        Ok(Stmt::While { condition, body })
    }

    fn if_statement(&mut self) -> (r: Result<Stmt, LuxError>)
        requires
            old(self).wf(),
        ensures
            final(self).continues(*old(self)),
            ({
                let p = if_statement_spec(
                    old(self).ts(),
                    old(self).base,
                    old(self).current as int,
                    old(self).errs(),
                );
                final(self).reached(p) && stmt_result(r) == p.result
            }),
        decreases old(self).tokens.len() - old(self).current, 16nat,
    {
        let condition = match self.condition() {
            Ok(expression) => Box::new(expression),
            Err(error) => {
                return Err(error);
            },
        };
        let then_branch = match self.statement() {
            Ok(statement) => Box::new(statement),
            Err(error) => {
                return Err(error);
            },
        };
        let else_branch = if self.matches(Types::ELSE) {
            match self.statement() {
                Ok(statement) => Some(Box::new(statement)),
                Err(error) => {
                    return Err(error);
                },
            }
        } else {
            None
        };
        Ok(Stmt::If { condition, else_branch, then_branch })
    }

    fn block(&mut self) -> (r: Result<Vec<Stmt>, LuxError>)
        requires
            old(self).wf(),
        ensures
            final(self).continues(*old(self)),
            ({
                let p = block_items_spec(
                    old(self).ts(),
                    old(self).base,
                    old(self).current as int,
                    old(self).errs(),
                    Seq::empty(),
                );
                final(self).reached(p) && stmts_result(r) == p.result
            }),
        decreases old(self).tokens.len() - old(self).current, 19nat,
    {
        let mut statements = no_stmts();
        while !self.check(Types::RIGHT_BRACE) && !self.is_at_end()
            invariant
                self.continues(*old(self)),
                block_items_spec(
                    self.ts(),
                    self.base,
                    self.current as int,
                    self.errs(),
                    stmts_view(&statements),
                ) == block_items_spec(
                    old(self).ts(),
                    old(self).base,
                    old(self).current as int,
                    old(self).errs(),
                    Seq::empty(),
                ),
            decreases self.tokens.len() - self.current,
        {
            match self.declaration() {
                Ok(statement) => {
                    push_stmt(&mut statements, statement);
                },
                Err(_) => {},
            }
        }
        match self.consume(Types::RIGHT_BRACE, "Expect '}' after block.") {
            Ok(_) => Ok(statements),
            Err(error) => Err(error),
        }
    }

    fn closed_expression(&mut self) -> (r: Result<Expr, LuxError>)
        requires
            old(self).wf(),
        ensures
            final(self).continues(*old(self)),
            ({
                let p = closed_expression(
                    old(self).ts(),
                    old(self).base,
                    old(self).current as int,
                    old(self).errs(),
                );
                final(self).reached(p) && expr_result(r) == p.result
            }),
            r is Ok ==> final(self).current > old(self).current,
    {
        let expr = match self.expression() {
            Ok(expression) => expression,
            Err(error) => {
                return Err(error);
            },
        };
        match self.consume(Types::SEMICOLON, "Expect ';' after value") {
            Ok(_) => Ok(expr),
            Err(error) => Err(error),
        }
    }

    fn print_statement(&mut self) -> (r: Result<Stmt, LuxError>)
        requires
            old(self).wf(),
        ensures
            final(self).continues(*old(self)),
            ({
                let p = print_statement_spec(
                    old(self).ts(),
                    old(self).base,
                    old(self).current as int,
                    old(self).errs(),
                );
                final(self).reached(p) && stmt_result(r) == p.result
            }),
    {
        match self.closed_expression() {
            Ok(expr) => Ok(Stmt::Print { expression: Box::new(expr) }),
            Err(error) => Err(error),
        }
    }

    fn expression_statement(&mut self) -> (r: Result<Stmt, LuxError>)
        requires
            old(self).wf(),
        ensures
            final(self).continues(*old(self)),
            ({
                let p = expression_statement_spec(
                    old(self).ts(),
                    old(self).base,
                    old(self).current as int,
                    old(self).errs(),
                );
                final(self).reached(p) && stmt_result(r) == p.result
            }),
            r is Ok ==> final(self).current > old(self).current,
    {
        match self.closed_expression() {
            Ok(expr) => Ok(Stmt::Expression { expression: Box::new(expr) }),
            Err(error) => Err(error),
        }
    }

    fn call(&mut self) -> (r: Result<Expr, LuxError>)
        requires
            old(self).wf(),
        ensures
            final(self).continues(*old(self)),
            ({
                let p = call_spec(
                    old(self).ts(),
                    old(self).base,
                    old(self).current as int,
                    old(self).errs(),
                );
                final(self).reached(p) && expr_result(r) == p.result
            }),
        decreases old(self).tokens.len() - old(self).current, 1nat,
    {
        let mut expr = match self.primary() {
            Ok(expression) => expression,
            Err(error) => {
                return Err(error);
            },
        };
        while self.check(Types::LEFT_PAREN)
            invariant
                self.continues(*old(self)),
                call_rest(self.ts(), self.base, expr@, self.current as int, self.errs())
                    == call_spec(
                    old(self).ts(),
                    old(self).base,
                    old(self).current as int,
                    old(self).errs(),
                ),
            decreases self.tokens.len() - self.current,
        {
            self.advance();
            expr = match self.finish_call(expr) {
                Ok(expression) => expression,
                Err(error) => {
                    return Err(error);
                },
            };
        }
        Ok(expr)
    }

    fn finish_call(&mut self, callee: Expr) -> (r: Result<Expr, LuxError>)
        requires
            old(self).wf(),
        ensures
            final(self).continues(*old(self)),
            ({
                let p = finish_call_spec(
                    old(self).ts(),
                    old(self).base,
                    callee@,
                    old(self).current as int,
                    old(self).errs(),
                );
                final(self).reached(p) && expr_result(r) == p.result
            }),
            r is Ok ==> final(self).current > old(self).current,
        decreases old(self).tokens.len() - old(self).current, 12nat,
    {
        let mut arguments = no_exprs();
        let mut more = !self.check(Types::RIGHT_PAREN);
        while more
            invariant
                self.continues(*old(self)),
                (if check_spec(old(self).ts(), old(self).current as int, Types::RIGHT_PAREN) {
                    done(Seq::empty(), old(self).current as int, old(self).errs())
                } else {
                    arguments_spec(
                        old(self).ts(),
                        old(self).base,
                        old(self).current as int,
                        old(self).errs(),
                        Seq::empty(),
                    )
                }) == if more {
                    arguments_spec(
                        self.ts(),
                        self.base,
                        self.current as int,
                        self.errs(),
                        exprs_view(&arguments),
                    )
                } else {
                    done(exprs_view(&arguments), self.current as int, self.errs())
                },
            decreases
                    self.tokens.len() - self.current,
                    if more {
                        1nat
                    } else {
                        0nat
                    },
        {
            if arguments.len() >= 255 {
                let error = self.error(self.peek(), "Can't have more than 255 arguments.");
                self.record(error);
            }
            let argument = match self.expression() {
                Ok(expression) => expression,
                Err(error) => {
                    return Err(error);
                },
            };
            push_expr(&mut arguments, argument);
            more = self.matches(Types::COMMA);
        }
        let paren = match self.consume(Types::RIGHT_PAREN, "Expect ')' after arguments.") {
            Ok(token) => token,
            Err(error) => {
                return Err(error);
            },
        };
        Ok(Expr::Call { arguments, callee: Box::new(callee), paren })
    }

    fn expression(&mut self) -> (r: Result<Expr, LuxError>)
        requires
            old(self).wf(),
        ensures
            final(self).continues(*old(self)),
            ({
                let p = expression_spec(
                    old(self).ts(),
                    old(self).base,
                    old(self).current as int,
                    old(self).errs(),
                );
                final(self).reached(p) && expr_result(r) == p.result
            }),
        decreases old(self).tokens.len() - old(self).current, 10nat,
    {
        self.assignment()
    }

    fn assignment(&mut self) -> (r: Result<Expr, LuxError>)
        requires
            old(self).wf(),
        ensures
            final(self).continues(*old(self)),
            ({
                let p = assignment_spec(
                    old(self).ts(),
                    old(self).base,
                    old(self).current as int,
                    old(self).errs(),
                );
                final(self).reached(p) && expr_result(r) == p.result
            }),
        decreases old(self).tokens.len() - old(self).current, 9nat,
    {
        let expr = match self.or() {
            Ok(expression) => expression,
            Err(error) => {
                return Err(error);
            },
        };
        if self.matches(Types::EQUAL) {
            match expr {
                Expr::Variable { name, id } => {
                    let value = match self.assignment() {
                        Ok(expression) => expression,
                        Err(error) => {
                            return Err(error);
                        },
                    };
                    return Ok(Expr::Assign { name, value: Box::new(value), id });
                },
                _ => {
                    return Err(self.error(self.previous(), "Invalid assignment target."));
                },
            }
        }
        Ok(expr)
    }

    fn is_operator_of(level: u8, kind: Types) -> (r: bool)
        ensures
            r == is_operator(level as nat, kind),
    {
        if level == 0 {
            kind == Types::SLASH || kind == Types::STAR
        } else if level == 1 {
            kind == Types::MINUS || kind == Types::PLUS
        } else if level == 2 {
            kind == Types::GREATER || kind == Types::GREATER_EQUAL || kind == Types::LESS || kind
                == Types::LESS_EQUAL
        } else if level == 3 {
            kind == Types::BANG_EQUAL || kind == Types::EQUAL_EQUAL
        } else if level == 4 {
            kind == Types::AND
        } else {
            kind == Types::OR
        }
    }

    fn operand(&mut self, level: u8) -> (r: Result<Expr, LuxError>)
        requires
            old(self).wf(),
            level <= 5,
        ensures
            final(self).continues(*old(self)),
            ({
                let p = if level == 0 {
                    unary_spec(
                        old(self).ts(),
                        old(self).base,
                        old(self).current as int,
                        old(self).errs(),
                    )
                } else {
                    infix_spec(
                        old(self).ts(),
                        old(self).base,
                        (level - 1) as nat,
                        old(self).current as int,
                        old(self).errs(),
                    )
                };
                final(self).reached(p) && expr_result(r) == p.result
            }),
        decreases old(self).tokens.len() - old(self).current, 3 + level, 0nat,
    {
        if level == 0 {
            self.unary()
        } else if level == 1 {
            self.factor()
        } else if level == 2 {
            self.term()
        } else if level == 3 {
            self.comparison()
        } else if level == 4 {
            self.equality()
        } else {
            self.and()
        }
    }

    /// An expression of the operators of `level` (0 factor, 1 term,
    /// 2 comparison, 3 equality, 4 `and`, 5 `or`) over operands of the level
    /// below.
    fn infix(&mut self, level: u8) -> (r: Result<Expr, LuxError>)
        requires
            old(self).wf(),
            level <= 5,
        ensures
            final(self).continues(*old(self)),
            ({
                let p = infix_spec(
                    old(self).ts(),
                    old(self).base,
                    level as nat,
                    old(self).current as int,
                    old(self).errs(),
                );
                final(self).reached(p) && expr_result(r) == p.result
            }),
        decreases old(self).tokens.len() - old(self).current, 3 + level, 1nat,
    {
        let mut expr = match self.operand(level) {
            Ok(expression) => expression,
            Err(error) => {
                return Err(error);
            },
        };
        while Self::is_operator_of(level, self.peek().type_t)
            invariant
                level <= 5,
                self.continues(*old(self)),
                infix_rest(
                    self.ts(),
                    self.base,
                    level as nat,
                    expr@,
                    self.current as int,
                    self.errs(),
                ) == infix_spec(
                    old(self).ts(),
                    old(self).base,
                    level as nat,
                    old(self).current as int,
                    old(self).errs(),
                ),
            decreases self.tokens.len() - self.current,
        {
            self.advance();
            let operator = self.previous().clone();
            let right = match self.operand(level) {
                Ok(expression) => expression,
                Err(error) => {
                    return Err(error);
                },
            };
            expr = if level >= 4 {
                Expr::Logical { left: Box::new(expr), operator, right: Box::new(right) }
            } else {
                Expr::Binary { left: Box::new(expr), operator, right: Box::new(right) }
            };
        }
        Ok(expr)
    }

    /// logic_or → logic_and ( "or" logic_and )*
    fn or(&mut self) -> (r: Result<Expr, LuxError>)
        requires
            old(self).wf(),
        ensures
            final(self).continues(*old(self)),
            ({
                let p = infix_spec(
                    old(self).ts(),
                    old(self).base,
                    5,
                    old(self).current as int,
                    old(self).errs(),
                );
                final(self).reached(p) && expr_result(r) == p.result
            }),
        decreases old(self).tokens.len() - old(self).current, 8nat, 2nat,
    {
        self.infix(5)
    }

    /// logic_and → equality ( "and" equality )*
    fn and(&mut self) -> (r: Result<Expr, LuxError>)
        requires
            old(self).wf(),
        ensures
            final(self).continues(*old(self)),
            ({
                let p = infix_spec(
                    old(self).ts(),
                    old(self).base,
                    4,
                    old(self).current as int,
                    old(self).errs(),
                );
                final(self).reached(p) && expr_result(r) == p.result
            }),
        decreases old(self).tokens.len() - old(self).current, 7nat, 2nat,
    {
        self.infix(4)
    }

    /// equality → comparison (( "!=" | "==" ) comparison)*
    fn equality(&mut self) -> (r: Result<Expr, LuxError>)
        requires
            old(self).wf(),
        ensures
            final(self).continues(*old(self)),
            ({
                let p = infix_spec(
                    old(self).ts(),
                    old(self).base,
                    3,
                    old(self).current as int,
                    old(self).errs(),
                );
                final(self).reached(p) && expr_result(r) == p.result
            }),
        decreases old(self).tokens.len() - old(self).current, 6nat, 2nat,
    {
        self.infix(3)
    }

    /// comparison → term (( ">" | ">=" | "<" | "<=" ) term)*
    fn comparison(&mut self) -> (r: Result<Expr, LuxError>)
        requires
            old(self).wf(),
        ensures
            final(self).continues(*old(self)),
            ({
                let p = infix_spec(
                    old(self).ts(),
                    old(self).base,
                    2,
                    old(self).current as int,
                    old(self).errs(),
                );
                final(self).reached(p) && expr_result(r) == p.result
            }),
        decreases old(self).tokens.len() - old(self).current, 5nat, 2nat,
    {
        self.infix(2)
    }

    /// term → factor (( "-" | "+" ) factor)*
    fn term(&mut self) -> (r: Result<Expr, LuxError>)
        requires
            old(self).wf(),
        ensures
            final(self).continues(*old(self)),
            ({
                let p = infix_spec(
                    old(self).ts(),
                    old(self).base,
                    1,
                    old(self).current as int,
                    old(self).errs(),
                );
                final(self).reached(p) && expr_result(r) == p.result
            }),
        decreases old(self).tokens.len() - old(self).current, 4nat, 2nat,
    {
        self.infix(1)
    }

    /// factor → unary (( "/" | "*" ) unary)*
    fn factor(&mut self) -> (r: Result<Expr, LuxError>)
        requires
            old(self).wf(),
        ensures
            final(self).continues(*old(self)),
            ({
                let p = infix_spec(
                    old(self).ts(),
                    old(self).base,
                    0,
                    old(self).current as int,
                    old(self).errs(),
                );
                final(self).reached(p) && expr_result(r) == p.result
            }),
        decreases old(self).tokens.len() - old(self).current, 3nat, 2nat,
    {
        self.infix(0)
    }

    fn unary(&mut self) -> (r: Result<Expr, LuxError>)
        requires
            old(self).wf(),
        ensures
            final(self).continues(*old(self)),
            ({
                let p = unary_spec(
                    old(self).ts(),
                    old(self).base,
                    old(self).current as int,
                    old(self).errs(),
                );
                final(self).reached(p) && expr_result(r) == p.result
            }),
        decreases old(self).tokens.len() - old(self).current, 2nat,
    {
        if self.matches(Types::BANG) || self.matches(Types::MINUS) {
            let operator = self.previous().clone();
            let right = match self.unary() {
                Ok(expression) => expression,
                Err(error) => {
                    return Err(error);
                },
            };
            return Ok(Expr::Unary { operator, right: Box::new(right) });
        }
        self.call()
    }

    fn primary(&mut self) -> (r: Result<Expr, LuxError>)
        requires
            old(self).wf(),
        ensures
            final(self).continues(*old(self)),
            ({
                let p = primary_spec(
                    old(self).ts(),
                    old(self).base,
                    old(self).current as int,
                    old(self).errs(),
                );
                final(self).reached(p) && expr_result(r) == p.result
            }),
        decreases old(self).tokens.len() - old(self).current, 0nat,
    {
        let kind = self.peek().type_t;
        if kind == Types::FALSE {
            self.advance();
            let value = Literal::Bool(false);
            assert(value@ == LiteralView::Bool(false));
            Ok(Expr::Literal { value })
        } else if kind == Types::TRUE {
            self.advance();
            let value = Literal::Bool(true);
            assert(value@ == LiteralView::Bool(true));
            Ok(Expr::Literal { value })
        } else if kind == Types::NIL {
            self.advance();
            let value = Literal::Nil;
            assert(value@ == LiteralView::Nil);
            Ok(Expr::Literal { value })
        } else if kind == Types::NUMBER || kind == Types::STRING {
            let value = self.peek().literal.clone();
            self.advance();
            Ok(Expr::Literal { value })
        } else if kind == Types::LEFT_PAREN {
            self.advance();
            let expr = match self.expression() {
                Ok(expression) => expression,
                Err(error) => {
                    return Err(error);
                },
            };
            match self.consume(Types::RIGHT_PAREN, "Expect ')' after expression") {
                Ok(_) => Ok(Expr::Grouping { expression: Box::new(expr) }),
                Err(error) => Err(error),
            }
        } else if kind == Types::IDENTIFIER {
            let id = self.number_of(self.current);
            let name = self.peek().clone();
            self.advance();
            Ok(Expr::Variable { name, id })
        } else {
            Err(self.error(self.peek(), "Expect expression."))
        }
    }
}

/// A program always ends with the statements it found: its errors are in the
/// diagnostics, not in its result.
pub proof fn lemma_program_ends(
    ts: Seq<TokenView>,
    base: u64,
    pos: int,
    errors: Seq<LuxErrorView>,
    found: Seq<StmtView>,
)
    ensures
        program_spec(ts, base, pos, errors, found).result is Ok,
    decreases ts.len() - pos,
{
    if kind_at(ts, pos) != Types::EOF {
        let item = forward(ts, pos + 1, declaration_spec(ts, base, pos, errors));
        lemma_program_ends(ts, base, item.pos, item.errors, kept(found, item.result));
    }
}

proof fn lemma_synchronize_from(ts: Seq<TokenView>, pos: int)
    requires
        0 <= pos,
    ensures
        synchronize_from(ts, pos) >= pos,
    decreases ts.len() - pos,
{
    if kind_at(ts, pos) == Types::EOF {
    } else if pos >= 1 && ts[pos - 1].type_t == Types::SEMICOLON {
    } else if starts_statement(kind_at(ts, pos)) {
    } else {
        lemma_synchronize_from(ts, pos + 1);
    }
}

} // verus!
