use crate::error::LuxErrorView;
use crate::expr::ExprView;
use crate::parser::{
    advance_spec, arguments_spec, assignment_spec, beyond, block_items_spec, call_rest, call_spec,
    check_spec, closed_expression, condition_spec, consume_spec, declaration_spec,
    expression_spec, expression_statement_spec, finish_call_spec, for_clause_spec,
    for_clauses_spec, for_initializer_spec, for_statement_spec, forward, function_head_spec,
    function_spec, if_statement_spec, infix_node, infix_rest, infix_spec, is_operator, kept,
    kind_at, parameters_spec, primary_spec, print_statement_spec, program_spec,
    return_statement_spec, starts_statement, statement_spec, synchronize_from,
    unary_spec, var_declaration_spec, while_statement_spec, Parsed,
};
use crate::stmt::StmtView;
use crate::token::TokenView;
use crate::token_type::Types;
use vstd::prelude::*;

verus! {

/// Whether `ts` ends with an `EOF` token.
pub open spec fn well_ended(ts: Seq<TokenView>) -> bool {
    ts.len() > 0 && ts.last().type_t == Types::EOF
}

/// Whether `parsed`, which started at `pos`, ends at or behind `pos` and
/// within the tokens.
pub open spec fn within<T>(ts: Seq<TokenView>, pos: int, parsed: Parsed<T>) -> bool {
    pos <= parsed.pos < ts.len()
}

/// Whether `parsed`, which started at `pos`, ends within the tokens, and
/// behind `pos` where it is no error.
pub open spec fn taken<T>(ts: Seq<TokenView>, pos: int, parsed: Parsed<T>) -> bool {
    within(ts, pos, parsed) && (parsed.result is Ok ==> pos < parsed.pos)
}

proof fn lemma_primary_within(
    ts: Seq<TokenView>,
    base: u64,
    pos: int,
    errors: Seq<LuxErrorView>,
)
    requires
        well_ended(ts),
        0 <= pos < ts.len(),
    ensures
        taken(ts, pos, primary_spec(ts, base, pos, errors)),
    decreases ts.len() - pos, 0nat,
{
    if kind_at(ts, pos) == Types::LEFT_PAREN {
        lemma_expression_within(ts, base, pos + 1, errors);
    }
}

proof fn lemma_call_rest_within(
    ts: Seq<TokenView>,
    base: u64,
    callee: ExprView,
    pos: int,
    errors: Seq<LuxErrorView>,
)
    requires
        well_ended(ts),
        0 <= pos < ts.len(),
    ensures
        within(ts, pos, call_rest(ts, base, callee, pos, errors)),
    decreases ts.len() - pos, 0nat,
{
    if kind_at(ts, pos) == Types::LEFT_PAREN {
        lemma_finish_call_within(ts, base, callee, pos + 1, errors);
        let call = finish_call_spec(ts, base, callee, pos + 1, errors);
        match call.result {
            Ok(expression) => {
                lemma_call_rest_within(ts, base, expression, call.pos, call.errors);
            },
            Err(_) => {},
        }
    }
}

proof fn lemma_call_within(ts: Seq<TokenView>, base: u64, pos: int, errors: Seq<LuxErrorView>)
    requires
        well_ended(ts),
        0 <= pos < ts.len(),
    ensures
        taken(ts, pos, call_spec(ts, base, pos, errors)),
    decreases ts.len() - pos, 1nat,
{
    lemma_primary_within(ts, base, pos, errors);
    let callee = primary_spec(ts, base, pos, errors);
    match callee.result {
        Ok(expression) => {
            lemma_call_rest_within(ts, base, expression, callee.pos, callee.errors);
        },
        Err(_) => {},
    }
}

proof fn lemma_arguments_within(
    ts: Seq<TokenView>,
    base: u64,
    pos: int,
    errors: Seq<LuxErrorView>,
    found: Seq<ExprView>,
)
    requires
        well_ended(ts),
        0 <= pos < ts.len(),
    ensures
        within(ts, pos, arguments_spec(ts, base, pos, errors, found)),
    decreases ts.len() - pos, 11nat,
{
    let noted = if found.len() >= 255 {
        errors.push(crate::error::error_at(ts[pos], "Can't have more than 255 arguments."@))
    } else {
        errors
    };
    lemma_expression_within(ts, base, pos, noted);
    let argument = expression_spec(ts, base, pos, noted);
    match argument.result {
        Ok(expression) => {
            if kind_at(ts, argument.pos) == Types::COMMA {
                lemma_arguments_within(
                    ts,
                    base,
                    argument.pos + 1,
                    argument.errors,
                    found.push(expression),
                );
            }
        },
        Err(_) => {},
    }
}

proof fn lemma_finish_call_within(
    ts: Seq<TokenView>,
    base: u64,
    callee: ExprView,
    pos: int,
    errors: Seq<LuxErrorView>,
)
    requires
        well_ended(ts),
        0 <= pos < ts.len(),
    ensures
        taken(ts, pos, finish_call_spec(ts, base, callee, pos, errors)),
    decreases ts.len() - pos, 12nat,
{
    if !check_spec(ts, pos, Types::RIGHT_PAREN) {
        lemma_arguments_within(ts, base, pos, errors, Seq::empty());
    }
}

proof fn lemma_unary_within(ts: Seq<TokenView>, base: u64, pos: int, errors: Seq<LuxErrorView>)
    requires
        well_ended(ts),
        0 <= pos < ts.len(),
    ensures
        taken(ts, pos, unary_spec(ts, base, pos, errors)),
    decreases ts.len() - pos, 2nat,
{
    if kind_at(ts, pos) == Types::BANG || kind_at(ts, pos) == Types::MINUS {
        lemma_unary_within(ts, base, pos + 1, errors);
    } else {
        lemma_call_within(ts, base, pos, errors);
    }
}

proof fn lemma_infix_rest_within(
    ts: Seq<TokenView>,
    base: u64,
    level: nat,
    left: ExprView,
    pos: int,
    errors: Seq<LuxErrorView>,
)
    requires
        well_ended(ts),
        0 <= pos < ts.len(),
    ensures
        within(ts, pos, infix_rest(ts, base, level, left, pos, errors)),
    decreases ts.len() - pos, 0nat,
{
    if is_operator(level, kind_at(ts, pos)) {
        if level == 0 {
            lemma_unary_within(ts, base, pos + 1, errors);
        } else {
            lemma_infix_within(ts, base, (level - 1) as nat, pos + 1, errors);
        }
        let operand = if level == 0 {
            unary_spec(ts, base, pos + 1, errors)
        } else {
            infix_spec(ts, base, (level - 1) as nat, pos + 1, errors)
        };
        match operand.result {
            Ok(right) => {
                lemma_infix_rest_within(
                    ts,
                    base,
                    level,
                    infix_node(level, left, ts[pos], right),
                    operand.pos,
                    operand.errors,
                );
            },
            Err(_) => {},
        }
    }
}

proof fn lemma_infix_within(
    ts: Seq<TokenView>,
    base: u64,
    level: nat,
    pos: int,
    errors: Seq<LuxErrorView>,
)
    requires
        well_ended(ts),
        0 <= pos < ts.len(),
    ensures
        taken(ts, pos, infix_spec(ts, base, level, pos, errors)),
    decreases ts.len() - pos, 3 + level,
{
    if level == 0 {
        lemma_unary_within(ts, base, pos, errors);
    } else {
        lemma_infix_within(ts, base, (level - 1) as nat, pos, errors);
    }
    let operand = if level == 0 {
        unary_spec(ts, base, pos, errors)
    } else {
        infix_spec(ts, base, (level - 1) as nat, pos, errors)
    };
    match operand.result {
        Ok(left) => {
            lemma_infix_rest_within(ts, base, level, left, operand.pos, operand.errors);
        },
        Err(_) => {},
    }
}

proof fn lemma_assignment_within(
    ts: Seq<TokenView>,
    base: u64,
    pos: int,
    errors: Seq<LuxErrorView>,
)
    requires
        well_ended(ts),
        0 <= pos < ts.len(),
    ensures
        taken(ts, pos, assignment_spec(ts, base, pos, errors)),
    decreases ts.len() - pos, 9nat,
{
    lemma_infix_within(ts, base, 5, pos, errors);
    let target = infix_spec(ts, base, 5, pos, errors);
    if target.result is Ok && kind_at(ts, target.pos) == Types::EQUAL {
        lemma_assignment_within(ts, base, target.pos + 1, target.errors);
    }
}

/// An expression ends behind its start and before the end of the tokens.
pub proof fn lemma_expression_within(
    ts: Seq<TokenView>,
    base: u64,
    pos: int,
    errors: Seq<LuxErrorView>,
)
    requires
        well_ended(ts),
        0 <= pos < ts.len(),
    ensures
        taken(ts, pos, expression_spec(ts, base, pos, errors)),
    decreases ts.len() - pos, 10nat,
{
    lemma_assignment_within(ts, base, pos, errors);
}

proof fn lemma_closed_expression_within(
    ts: Seq<TokenView>,
    base: u64,
    pos: int,
    errors: Seq<LuxErrorView>,
)
    requires
        well_ended(ts),
        0 <= pos < ts.len(),
    ensures
        taken(ts, pos, closed_expression(ts, base, pos, errors)),
        taken(ts, pos, expression_statement_spec(ts, base, pos, errors)),
        taken(ts, pos, print_statement_spec(ts, base, pos, errors)),
{
    lemma_expression_within(ts, base, pos, errors);
}

proof fn lemma_return_within(ts: Seq<TokenView>, base: u64, pos: int, errors: Seq<LuxErrorView>)
    requires
        well_ended(ts),
        0 <= pos < ts.len(),
    ensures
        taken(ts, pos, return_statement_spec(ts, base, pos, errors)),
{
    lemma_expression_within(ts, base, pos, errors);
}

proof fn lemma_var_declaration_within(
    ts: Seq<TokenView>,
    base: u64,
    pos: int,
    errors: Seq<LuxErrorView>,
)
    requires
        well_ended(ts),
        0 <= pos < ts.len(),
    ensures
        taken(ts, pos, var_declaration_spec(ts, base, pos, errors)),
{
    let named = consume_spec(ts, pos, errors, Types::IDENTIFIER, "Expect a variable name."@);
    if named.result is Ok && kind_at(ts, named.pos) == Types::EQUAL {
        lemma_expression_within(ts, base, named.pos + 1, named.errors);
    }
}

proof fn lemma_condition_within(
    ts: Seq<TokenView>,
    base: u64,
    pos: int,
    errors: Seq<LuxErrorView>,
)
    requires
        well_ended(ts),
        0 <= pos < ts.len(),
    ensures
        taken(ts, pos, condition_spec(ts, base, pos, errors)),
{
    let open = consume_spec(ts, pos, errors, Types::LEFT_PAREN, "Expect '(' after 'if'."@);
    if open.result is Ok {
        lemma_expression_within(ts, base, open.pos, open.errors);
    }
}

proof fn lemma_for_clause_within(
    ts: Seq<TokenView>,
    base: u64,
    pos: int,
    errors: Seq<LuxErrorView>,
    closer: Types,
    message: Seq<char>,
)
    requires
        well_ended(ts),
        0 <= pos < ts.len(),
    ensures
        taken(ts, pos, for_clause_spec(ts, base, pos, errors, closer, message)),
{
    if !check_spec(ts, pos, closer) {
        lemma_expression_within(ts, base, pos, errors);
    }
}

/// The clauses of a `for` end behind their start, where they are no error,
/// and before the end of the tokens.
pub proof fn lemma_for_clauses_within(
    ts: Seq<TokenView>,
    base: u64,
    pos: int,
    errors: Seq<LuxErrorView>,
)
    requires
        well_ended(ts),
        0 <= pos < ts.len(),
    ensures
        taken(ts, pos, for_clauses_spec(ts, base, pos, errors)),
{
    let open = consume_spec(ts, pos, errors, Types::LEFT_PAREN, "Expect '(' after 'if'."@);
    if open.result is Ok {
        if kind_at(ts, open.pos) == Types::VAR {
            lemma_var_declaration_within(ts, base, open.pos + 1, open.errors);
        } else if kind_at(ts, open.pos) != Types::SEMICOLON {
            lemma_closed_expression_within(ts, base, open.pos, open.errors);
        }
        let first = for_initializer_spec(ts, base, open.pos, open.errors);
        if first.result is Ok {
            lemma_for_clause_within(
                ts,
                base,
                first.pos,
                first.errors,
                Types::SEMICOLON,
                "Expect ';' after loop condition."@,
            );
            let second = for_clause_spec(
                ts,
                base,
                first.pos,
                first.errors,
                Types::SEMICOLON,
                "Expect ';' after loop condition."@,
            );
            if second.result is Ok {
                lemma_for_clause_within(
                    ts,
                    base,
                    second.pos,
                    second.errors,
                    Types::RIGHT_PAREN,
                    "Expect ')' after for clauses."@,
                );
            }
        }
    }
}

proof fn lemma_parameters_within(
    ts: Seq<TokenView>,
    pos: int,
    errors: Seq<LuxErrorView>,
    found: Seq<TokenView>,
)
    requires
        well_ended(ts),
        0 <= pos < ts.len(),
    ensures
        within(ts, pos, parameters_spec(ts, pos, errors, found)),
    decreases ts.len() - pos,
{
    let noted = if found.len() >= 255 {
        errors.push(crate::error::error_at(ts[pos], "Can't have more than 255 parameters."@))
    } else {
        errors
    };
    let parameter = consume_spec(ts, pos, noted, Types::IDENTIFIER, "Expect parameter name."@);
    match parameter.result {
        Ok(name) => {
            if kind_at(ts, parameter.pos) == Types::COMMA {
                lemma_parameters_within(ts, parameter.pos + 1, parameter.errors, found.push(name));
            }
        },
        Err(_) => {},
    }
}

proof fn lemma_function_head_within(
    ts: Seq<TokenView>,
    pos: int,
    errors: Seq<LuxErrorView>,
    kind: Seq<char>,
)
    requires
        well_ended(ts),
        0 <= pos < ts.len(),
    ensures
        taken(ts, pos, function_head_spec(ts, pos, errors, kind)),
{
    let named = consume_spec(ts, pos, errors, Types::IDENTIFIER, "Expect "@ + kind + " name."@);
    if named.result is Ok {
        let open = consume_spec(
            ts,
            named.pos,
            named.errors,
            Types::LEFT_PAREN,
            "Expect '(' after 'if'."@,
        );
        if open.result is Ok && !check_spec(ts, open.pos, Types::RIGHT_PAREN) {
            lemma_parameters_within(ts, open.pos, open.errors, Seq::empty());
        }
    }
}

proof fn lemma_synchronize_within(ts: Seq<TokenView>, pos: int)
    requires
        well_ended(ts),
        0 <= pos < ts.len(),
    ensures
        pos <= synchronize_from(ts, pos) < ts.len(),
    decreases ts.len() - pos,
{
    if kind_at(ts, pos) == Types::EOF {
    } else if pos >= 1 && ts[pos - 1].type_t == Types::SEMICOLON {
    } else if starts_statement(kind_at(ts, pos)) {
    } else {
        lemma_synchronize_within(ts, pos + 1);
    }
}

proof fn lemma_function_within(
    ts: Seq<TokenView>,
    base: u64,
    pos: int,
    errors: Seq<LuxErrorView>,
    kind: Seq<char>,
)
    requires
        well_ended(ts),
        0 <= pos < ts.len(),
    ensures
        taken(ts, pos, function_spec(ts, base, pos, errors, kind)),
    decreases ts.len() - pos, 16nat,
{
    lemma_function_head_within(ts, pos, errors, kind);
    let head = function_head_spec(ts, pos, errors, kind);
    if head.result is Ok {
        lemma_block_items_within(ts, base, head.pos, head.errors, Seq::empty());
    }
}

proof fn lemma_if_statement_within(
    ts: Seq<TokenView>,
    base: u64,
    pos: int,
    errors: Seq<LuxErrorView>,
)
    requires
        well_ended(ts),
        0 <= pos < ts.len(),
    ensures
        taken(ts, pos, if_statement_spec(ts, base, pos, errors)),
    decreases ts.len() - pos, 16nat,
{
    lemma_condition_within(ts, base, pos, errors);
    let tested = condition_spec(ts, base, pos, errors);
    if tested.result is Ok {
        assert(beyond(ts, pos, tested.pos) == tested.pos);
        lemma_statement_within(ts, base, tested.pos, tested.errors);
        let then = statement_spec(ts, base, tested.pos, tested.errors);
        assert(forward(ts, pos, then) == then);
        if then.result is Ok && kind_at(ts, then.pos) == Types::ELSE {
            lemma_statement_within(ts, base, then.pos + 1, then.errors);
            let other = statement_spec(ts, base, then.pos + 1, then.errors);
            assert(forward(ts, then.pos + 1, other) == other);
        }
    }
}

proof fn lemma_while_statement_within(
    ts: Seq<TokenView>,
    base: u64,
    pos: int,
    errors: Seq<LuxErrorView>,
)
    requires
        well_ended(ts),
        0 <= pos < ts.len(),
    ensures
        taken(ts, pos, while_statement_spec(ts, base, pos, errors)),
    decreases ts.len() - pos, 16nat,
{
    lemma_condition_within(ts, base, pos, errors);
    let tested = condition_spec(ts, base, pos, errors);
    if tested.result is Ok {
        lemma_statement_within(ts, base, tested.pos, tested.errors);
    }
}

proof fn lemma_for_statement_within(
    ts: Seq<TokenView>,
    base: u64,
    pos: int,
    errors: Seq<LuxErrorView>,
)
    requires
        well_ended(ts),
        0 <= pos < ts.len(),
    ensures
        taken(ts, pos, for_statement_spec(ts, base, pos, errors)),
    decreases ts.len() - pos, 16nat,
{
    lemma_for_clauses_within(ts, base, pos, errors);
    let clauses = for_clauses_spec(ts, base, pos, errors);
    if clauses.result is Ok {
        lemma_statement_within(ts, base, clauses.pos, clauses.errors);
    }
}

/// A statement ends behind its start, where it is no error, and before the
/// end of the tokens.
pub proof fn lemma_statement_within(
    ts: Seq<TokenView>,
    base: u64,
    pos: int,
    errors: Seq<LuxErrorView>,
)
    requires
        well_ended(ts),
        0 <= pos < ts.len(),
    ensures
        taken(ts, pos, statement_spec(ts, base, pos, errors)),
    decreases ts.len() - pos, 17nat,
{
    let kind = kind_at(ts, pos);
    if kind == Types::PRINT {
        lemma_closed_expression_within(ts, base, pos + 1, errors);
    } else if kind == Types::LEFT_BRACE {
        lemma_block_items_within(ts, base, pos + 1, errors, Seq::empty());
    } else if kind == Types::IF {
        lemma_if_statement_within(ts, base, pos + 1, errors);
    } else if kind == Types::WHILE {
        lemma_while_statement_within(ts, base, pos + 1, errors);
    } else if kind == Types::FOR {
        lemma_for_statement_within(ts, base, pos + 1, errors);
    } else if kind == Types::RETURN {
        lemma_return_within(ts, base, pos + 1, errors);
    } else {
        lemma_closed_expression_within(ts, base, pos, errors);
    }
}

/// A declaration ends before the end of the tokens, and behind its start
/// unless it starts at the end: after an error, at least one token is
/// skipped.
pub proof fn lemma_declaration_within(
    ts: Seq<TokenView>,
    base: u64,
    pos: int,
    errors: Seq<LuxErrorView>,
)
    requires
        well_ended(ts),
        0 <= pos < ts.len(),
    ensures
        within(ts, pos, declaration_spec(ts, base, pos, errors)),
        kind_at(ts, pos) != Types::EOF ==> pos < declaration_spec(ts, base, pos, errors).pos,
    decreases ts.len() - pos, 18nat,
{
    let kind = kind_at(ts, pos);
    if kind == Types::FUN {
        lemma_function_within(ts, base, pos + 1, errors, "function"@);
    } else if kind == Types::VAR {
        lemma_var_declaration_within(ts, base, pos + 1, errors);
    } else {
        lemma_statement_within(ts, base, pos, errors);
    }
    let parsed = if kind == Types::FUN {
        function_spec(ts, base, pos + 1, errors, "function"@)
    } else if kind == Types::VAR {
        var_declaration_spec(ts, base, pos + 1, errors)
    } else {
        statement_spec(ts, base, pos, errors)
    };
    if parsed.result is Err {
        lemma_synchronize_within(ts, advance_spec(ts, parsed.pos));
    }
}

proof fn lemma_block_items_within(
    ts: Seq<TokenView>,
    base: u64,
    pos: int,
    errors: Seq<LuxErrorView>,
    found: Seq<StmtView>,
)
    requires
        well_ended(ts),
        0 <= pos < ts.len(),
    ensures
        taken(ts, pos, block_items_spec(ts, base, pos, errors, found)),
    decreases ts.len() - pos, 19nat,
{
    if !(kind_at(ts, pos) == Types::RIGHT_BRACE || kind_at(ts, pos) == Types::EOF) {
        lemma_declaration_within(ts, base, pos, errors);
        let item = declaration_spec(ts, base, pos, errors);
        lemma_block_items_within(ts, base, item.pos, item.errors, kept(found, item.result));
    }
}

/// A program ends at the `EOF` token.
pub proof fn lemma_program_within(
    ts: Seq<TokenView>,
    base: u64,
    pos: int,
    errors: Seq<LuxErrorView>,
    found: Seq<StmtView>,
)
    requires
        well_ended(ts),
        0 <= pos < ts.len(),
    ensures
        within(ts, pos, program_spec(ts, base, pos, errors, found)),
        kind_at(ts, program_spec(ts, base, pos, errors, found).pos) == Types::EOF,
    decreases ts.len() - pos, 20nat,
{
    if kind_at(ts, pos) != Types::EOF {
        lemma_declaration_within(ts, base, pos, errors);
        let item = declaration_spec(ts, base, pos, errors);
        lemma_program_within(ts, base, item.pos, item.errors, kept(found, item.result));
    }
}

/// On tokens that end with `EOF`, the positions that the grammar holds in
/// place with `forward` and `beyond` are in place already: an expression, a
/// statement and a declaration that start within the tokens end at or behind
/// their start and within the tokens.
pub proof fn lemma_positions_hold(
    ts: Seq<TokenView>,
    base: u64,
    pos: int,
    errors: Seq<LuxErrorView>,
)
    requires
        well_ended(ts),
        0 <= pos < ts.len(),
    ensures
        forward(ts, pos, expression_spec(ts, base, pos, errors)) == expression_spec(
            ts,
            base,
            pos,
            errors,
        ),
        forward(ts, pos, statement_spec(ts, base, pos, errors)) == statement_spec(
            ts,
            base,
            pos,
            errors,
        ),
        forward(ts, pos, declaration_spec(ts, base, pos, errors)) == declaration_spec(
            ts,
            base,
            pos,
            errors,
        ),
        condition_spec(ts, base, pos, errors).result is Ok ==> beyond(
            ts,
            pos,
            condition_spec(ts, base, pos, errors).pos,
        ) == condition_spec(ts, base, pos, errors).pos,
{
    lemma_expression_within(ts, base, pos, errors);
    lemma_statement_within(ts, base, pos, errors);
    lemma_declaration_within(ts, base, pos, errors);
    lemma_condition_within(ts, base, pos, errors);
}

} // verus!
