//! The syntax tree the lowering consumes: expressions, statements and the
//! operator and type tags.  The tree arrives already validated by an
//! external parser; the lowering never needs source positions.

use vstd::prelude::*;
use vstd::string::*;
use crate::lexer::token_values_renderable;
use crate::lexer::SourceToken;
use crate::lexer::Token;
use crate::transpiler::emitter::expr_operands_ok;
use crate::transpiler::lemma_operands_ok_push;
use crate::transpiler::stmt_operands_ok;
use crate::transpiler::stmts_operands_ok;
use crate::util::decimal_usize;

verus! {

/// A binary operator.  The arithmetic operators lower on the generic
/// expression path; the two comparisons are accepted only as a loop guard.
#[derive(Clone, Copy, Debug, PartialEq, Eq, Structural)]
pub enum Operation {
    Add,
    Sub,
    Mul,
    Div,
    Mod,
    CompareEquals,
    CompareLessThan,
}

/// The type tag a declaration expression carries.
#[derive(Clone, Copy, Debug, PartialEq, Eq, Structural)]
pub enum DataType {
    Int,
    String,
}

/// An expression tree; child nodes are owned.
#[derive(Debug)]
pub enum Expression {
    Variable(String),
    Integer(i32),
    Declaration { identifier: String, data_type: DataType, value: Box<Expression> },
    Literal(String),
    BinaryOp { operator: Operation, left: Box<Expression>, right: Box<Expression> },
}

/// A statement; loop bodies and blocks own their statement lists.
#[derive(Debug)]
pub enum Statement {
    IntDeclaration(String),
    StringDeclaration(String, usize),
    Assignment(String, Expression),
    Exit,
    WhileLoop { condition: Box<Expression>, body: Box<Statement> },
    Call(String, Vec<Expression>),
    Block(Vec<Statement>),
}

/// A diagnostic of the form `<message> at <line>:<column>`.
fn err_at(message: &str, position: (usize, usize)) -> (r: String)
{
    proof {
        reveal_strlit(" at ");
        reveal_strlit(":");
    }
    let mut text = String::new();
    text.append(message);
    text.append(" at ");
    text.append(decimal_usize(position.0).as_str());
    text.append(":");
    text.append(decimal_usize(position.1).as_str());
    text
}

/// Parses a whole token stream into a statement list; the stream is
/// expected to end with the end-of-input token.  Parsing stops at the
/// first token that fits no statement form.
#[verifier::loop_isolation(false)]
pub fn parse(tokens: &Vec<SourceToken>) -> (r: Result<Vec<Statement>, String>)
    ensures
        r matches Ok(tree) ==> (token_values_renderable(tokens@) ==> stmts_operands_ok(
            tree@,
            0,
        )),
{
    let mut ast: Vec<Statement> = Vec::new();
    let len = tokens.len();
    let mut pos: usize = 0;
    while pos < len
        invariant
            0 <= pos <= len,
            len == tokens@.len(),
            token_values_renderable(tokens@) ==> stmts_operands_ok(ast@, 0),
        decreases len - pos,
    {
        let here = tokens[pos].position;
        let ghost pos0 = pos;
        match &tokens[pos].token {
            Token::Int => {
                pos = pos + 1;
                let identifier: String = if pos < len {
                    match &tokens[pos].token {
                        Token::Identifier(id) => {
                            pos = pos + 1;
                            id.clone()
                        },
                        _ => {
                            return Err(err_at("Expected identifier", here));
                        },
                    }
                } else {
                    return Err(err_at("Expected identifier", here));
                };
                let declaration = Statement::IntDeclaration(identifier.clone());
                proof {
                    if token_values_renderable(tokens@) {
                        lemma_operands_ok_push(ast@, declaration, 0);
                    }
                }
                ast.push(declaration);
                if pos < len && matches!(&tokens[pos].token, Token::Assign) {
                    pos = pos + 1;
                    let parsed = parse_expression(tokens, pos)?;
                    let assignment = Statement::Assignment(identifier, parsed.0);
                    proof {
                        if token_values_renderable(tokens@) {
                            lemma_operands_ok_push(ast@, assignment, 0);
                        }
                    }
                    ast.push(assignment);
                    pos = parsed.1;
                }
                if pos < len && matches!(&tokens[pos].token, Token::Semicolon) {
                    pos = pos + 1;
                } else {
                    return Err(err_at("Expected ;", here));
                }
            },
            Token::String => {
                pos = pos + 1;
                if pos < len && matches!(&tokens[pos].token, Token::LSquare) {
                    pos = pos + 1;
                } else {
                    return Err(err_at("Expected [", here));
                }
                let length: usize = if pos < len {
                    match &tokens[pos].token {
                        Token::Integer(value) => {
                            if *value <= 0 {
                                return Err(
                                    err_at("String size must be greater than 0", here),
                                );
                            }
                            pos = pos + 1;
                            *value as usize
                        },
                        _ => {
                            return Err(err_at("Expected integer value", here));
                        },
                    }
                } else {
                    return Err(err_at("Expected integer value", here));
                };
                if pos < len && matches!(&tokens[pos].token, Token::RSquare) {
                    pos = pos + 1;
                } else {
                    return Err(err_at("Expected ]", here));
                }
                let identifier: String = if pos < len {
                    match &tokens[pos].token {
                        Token::Identifier(id) => {
                            pos = pos + 1;
                            id.clone()
                        },
                        _ => {
                            return Err(err_at("Expected identifier", here));
                        },
                    }
                } else {
                    return Err(err_at("Expected identifier", here));
                };
                let declaration = Statement::StringDeclaration(identifier.clone(), length);
                proof {
                    if token_values_renderable(tokens@) {
                        lemma_operands_ok_push(ast@, declaration, 0);
                    }
                }
                ast.push(declaration);
                if pos < len && matches!(&tokens[pos].token, Token::Assign) {
                    pos = pos + 1;
                    let parsed = parse_expression(tokens, pos)?;
                    let assignment = Statement::Assignment(identifier, parsed.0);
                    proof {
                        if token_values_renderable(tokens@) {
                            lemma_operands_ok_push(ast@, assignment, 0);
                        }
                    }
                    ast.push(assignment);
                    pos = parsed.1;
                }
                if pos < len && matches!(&tokens[pos].token, Token::Semicolon) {
                    pos = pos + 1;
                } else {
                    return Err(err_at("Expected ;", here));
                }
            },
            Token::Const => {
                pos = pos + 1;
                let identifier: String = if pos < len {
                    match &tokens[pos].token {
                        Token::Identifier(id) => {
                            pos = pos + 1;
                            id.clone()
                        },
                        _ => {
                            return Err(err_at("Expected identifier", here));
                        },
                    }
                } else {
                    return Err(err_at("Expected identifier", here));
                };
                if pos < len {
                    match &tokens[pos].token {
                        Token::Integer(value) => {
                            let declaration = Statement::IntDeclaration(identifier.clone());
                            let assignment = Statement::Assignment(
                                identifier,
                                Expression::Integer(*value),
                            );
                            proof {
                                if token_values_renderable(tokens@) {
                                    assert(tokens@[pos as int].token matches Token::Integer(v)
                                        && v != i32::MIN);
                                    lemma_operands_ok_push(ast@, declaration, 0);
                                    lemma_operands_ok_push(ast@.push(declaration), assignment, 0);
                                }
                            }
                            ast.push(declaration);
                            ast.push(assignment);
                            pos = pos + 1;
                        },
                        _ => {
                            return Err(err_at("Expected integer value", here));
                        },
                    }
                } else {
                    return Err(err_at("Expected integer value", here));
                }
                if pos < len && matches!(&tokens[pos].token, Token::Semicolon) {
                    pos = pos + 1;
                } else {
                    return Err(err_at("Expected ;", here));
                }
            },
            Token::Print => {
                pos = pos + 1;
                let parsed = parse_expression(tokens, pos)?;
                pos = parsed.1;
                let mut args: Vec<Expression> = Vec::new();
                args.push(parsed.0);
                let call = Statement::Call(String::from_str("print"), args);
                proof {
                    if token_values_renderable(tokens@) {
                        assert(stmt_operands_ok(call)) by {
                            assert forall|j: int|
                                0 <= j < call->Call_1@.len() implies expr_operands_ok(
                                #[trigger] call->Call_1@[j],
                            ) by {}
                        }
                        lemma_operands_ok_push(ast@, call, 0);
                    }
                }
                ast.push(call);
                if pos < len && matches!(&tokens[pos].token, Token::Semicolon) {
                    pos = pos + 1;
                } else {
                    return Err(err_at("Expected ;", here));
                }
            },
            Token::Exit => {
                pos = pos + 1;
                proof {
                    if token_values_renderable(tokens@) {
                        lemma_operands_ok_push(ast@, Statement::Exit, 0);
                    }
                }
                ast.push(Statement::Exit);
                if pos < len && matches!(&tokens[pos].token, Token::Semicolon) {
                    pos = pos + 1;
                } else {
                    return Err(err_at("Expected ;", here));
                }
            },
            Token::While => {
                pos = pos + 1;
                if pos < len && matches!(&tokens[pos].token, Token::LParen) {
                    pos = pos + 1;
                    let condition = parse_expression(tokens, pos)?;
                    pos = condition.1;
                    if pos < len && matches!(&tokens[pos].token, Token::RParen) {
                        pos = pos + 1;
                        let body = parse_statement(tokens, pos)?;
                        pos = body.1;
                        let loop_statement = Statement::WhileLoop {
                            condition: Box::new(condition.0),
                            body: Box::new(body.0),
                        };
                        proof {
                            if token_values_renderable(tokens@) {
                                assert(stmt_operands_ok(loop_statement));
                                lemma_operands_ok_push(ast@, loop_statement, 0);
                            }
                        }
                        ast.push(loop_statement);
                    } else {
                        return Err(err_at("Expected )", here));
                    }
                } else {
                    return Err(err_at("Expected (", here));
                }
            },
            Token::Identifier(name) => {
                let name = name.clone();
                pos = pos + 1;
                if pos < len && matches!(&tokens[pos].token, Token::Assign) {
                    pos = pos + 1;
                    let parsed = parse_expression(tokens, pos)?;
                    pos = parsed.1;
                    let assignment = Statement::Assignment(name, parsed.0);
                    proof {
                        if token_values_renderable(tokens@) {
                            lemma_operands_ok_push(ast@, assignment, 0);
                        }
                    }
                    ast.push(assignment);
                } else if pos < len && matches!(&tokens[pos].token, Token::LParen) {
                    pos = pos + 1;
                    let mut args: Vec<Expression> = Vec::new();
                    while pos < len
                        invariant
                            pos0 < pos <= len,
                            token_values_renderable(tokens@) ==> forall|j: int|
                                0 <= j < args@.len() ==> expr_operands_ok(#[trigger] args@[j]),
                        decreases len - pos,
                    {
                        if matches!(&tokens[pos].token, Token::RParen) {
                            pos = pos + 1;
                            break;
                        } else if matches!(&tokens[pos].token, Token::Comma) {
                            pos = pos + 1;
                        } else {
                            let parsed = parse_expression(tokens, pos)?;
                            let ghost previous = args@;
                            args.push(parsed.0);
                            proof {
                                if token_values_renderable(tokens@) {
                                    assert forall|j: int|
                                        0 <= j < args@.len() implies expr_operands_ok(
                                        #[trigger] args@[j],
                                    ) by {
                                        if j < previous.len() {
                                            assert(args@[j] == previous[j]);
                                        }
                                    }
                                }
                            }
                            pos = parsed.1;
                        }
                    }
                    let call = Statement::Call(name, args);
                    proof {
                        if token_values_renderable(tokens@) {
                            assert(stmt_operands_ok(call));
                            lemma_operands_ok_push(ast@, call, 0);
                        }
                    }
                    ast.push(call);
                } else {
                    return Err(err_at("Unexpected identifier", here));
                }
                if pos < len && matches!(&tokens[pos].token, Token::Semicolon) {
                    pos = pos + 1;
                } else {
                    return Err(err_at("Expected ;", here));
                }
            },
            Token::EOF => {
                break;
            },
            _ => {
                return Err(err_at("Unexpected token", here));
            },
        }
    }
    Ok(ast)
}

/// Parses one statement of a loop body or block.
#[verifier::loop_isolation(false)]
fn parse_statement(tokens: &Vec<SourceToken>, start: usize) -> (r: Result<
    (Statement, usize),
    String,
>)
    requires
        start <= tokens@.len(),
    ensures
        r matches Ok(p) ==> start < p.1 <= tokens@.len(),
        r matches Ok(p) ==> (token_values_renderable(tokens@) ==> stmt_operands_ok(p.0)),
    decreases tokens@.len() - start, 4int,
{
    let len = tokens.len();
    if start >= len {
        return Err(String::from_str("Statement, unexpected end of input"));
    }
    let here = tokens[start].position;
    let mut pos = start + 1;
    match &tokens[start].token {
        Token::Const => {
            let identifier: String = if pos < len {
                match &tokens[pos].token {
                    Token::Identifier(id) => {
                        pos = pos + 1;
                        id.clone()
                    },
                    _ => {
                        return Err(err_at("Expected identifier", here));
                    },
                }
            } else {
                return Err(err_at("Expected identifier", here));
            };
            if pos < len && matches!(&tokens[pos].token, Token::Integer(_)) {
                pos = pos + 1;
                Ok((Statement::IntDeclaration(identifier), pos))
            } else {
                Err(err_at("Expected integer value", here))
            }
        },
        Token::Print => {
            let parsed = parse_expression(tokens, pos)?;
            let mut args: Vec<Expression> = Vec::new();
            args.push(parsed.0);
            proof {
                if token_values_renderable(tokens@) {
                    assert forall|j: int| 0 <= j < args@.len() implies expr_operands_ok(
                        #[trigger] args@[j],
                    ) by {}
                }
            }
            Ok((Statement::Call(String::from_str("print"), args), parsed.1))
        },
        Token::Exit => Ok((Statement::Exit, pos)),
        Token::While => {
            // one token after the keyword is passed over before the guard
            if pos < len {
                pos = pos + 1;
            }
            if pos < len && matches!(&tokens[pos].token, Token::LParen) {
                pos = pos + 1;
                let condition = parse_expression(tokens, pos)?;
                pos = condition.1;
                let mut body: Vec<Statement> = Vec::new();
                while pos < len
                    invariant
                        start + 1 <= pos <= len,
                        token_values_renderable(tokens@) ==> stmts_operands_ok(body@, 0),
                    decreases len - pos,
                {
                    if matches!(&tokens[pos].token, Token::RParen) {
                        pos = pos + 1;
                        break;
                    }
                    let inner = parse_statement(tokens, pos)?;
                    proof {
                        if token_values_renderable(tokens@) {
                            lemma_operands_ok_push(body@, inner.0, 0);
                        }
                    }
                    body.push(inner.0);
                    pos = inner.1;
                }
                proof {
                    if token_values_renderable(tokens@) {
                        assert(expr_operands_ok(condition.0));
                        assert(stmts_operands_ok(body@, 0));
                        assert(stmt_operands_ok(Statement::Block(body)));
                    }
                }
                Ok(
                    (
                        Statement::WhileLoop {
                            condition: Box::new(condition.0),
                            body: Box::new(Statement::Block(body)),
                        },
                        pos,
                    ),
                )
            } else {
                Err(err_at("Expected (", here))
            }
        },
        Token::Identifier(id) => {
            let name = id.clone();
            if pos < len && matches!(&tokens[pos].token, Token::Assign) {
                pos = pos + 1;
                let parsed = parse_expression(tokens, pos)?;
                Ok((Statement::Assignment(name, parsed.0), parsed.1))
            } else {
                Err(err_at("Expected =", here))
            }
        },
        Token::CurlyL => {
            let mut body: Vec<Statement> = Vec::new();
            while pos < len
                invariant
                    start + 1 <= pos <= len,
                    token_values_renderable(tokens@) ==> stmts_operands_ok(body@, 0),
                decreases len - pos,
            {
                if matches!(&tokens[pos].token, Token::CurlyR) {
                    pos = pos + 1;
                    break;
                } else if matches!(&tokens[pos].token, Token::Semicolon) {
                    pos = pos + 1;
                } else {
                    let inner = parse_statement(tokens, pos)?;
                    proof {
                        if token_values_renderable(tokens@) {
                            lemma_operands_ok_push(body@, inner.0, 0);
                        }
                    }
                    body.push(inner.0);
                    pos = inner.1;
                }
            }
            Ok((Statement::Block(body), pos))
        },
        _ => Err(err_at("Statement, unexpected token", here)),
    }
}

/// Parses an expression: a left-associative chain of factors.
#[verifier::loop_isolation(false)]
fn parse_expression(tokens: &Vec<SourceToken>, start: usize) -> (r: Result<
    (Expression, usize),
    String,
>)
    requires
        start <= tokens@.len(),
    ensures
        r matches Ok(p) ==> start < p.1 <= tokens@.len(),
        r matches Ok(p) ==> (token_values_renderable(tokens@) ==> expr_operands_ok(p.0)),
    decreases tokens@.len() - start, 3int,
{
    let len = tokens.len();
    let first = parse_factor(tokens, start)?;
    let mut expr = first.0;
    let mut pos = first.1;
    while pos < len
        invariant
            start < pos <= len,
            token_values_renderable(tokens@) ==> expr_operands_ok(expr),
        decreases len - pos,
    {
        let operator: Operation = match &tokens[pos].token {
            Token::Plus => Operation::Add,
            Token::Minus => Operation::Sub,
            Token::Star => Operation::Mul,
            Token::Slash => Operation::Div,
            Token::Percent => Operation::Mod,
            Token::Equals => Operation::CompareEquals,
            Token::Less => Operation::CompareLessThan,
            _ => {
                break;
            },
        };
        pos = pos + 1;
        let right = parse_factor(tokens, pos)?;
        expr = Expression::BinaryOp {
            operator,
            left: Box::new(expr),
            right: Box::new(right.0),
        };
        pos = right.1;
    }
    Ok((expr, pos))
}

/// Parses a factor: a left-associative chain of unary expressions under
/// the multiplicative operators.
#[verifier::loop_isolation(false)]
fn parse_factor(tokens: &Vec<SourceToken>, start: usize) -> (r: Result<
    (Expression, usize),
    String,
>)
    requires
        start <= tokens@.len(),
    ensures
        r matches Ok(p) ==> start < p.1 <= tokens@.len(),
        r matches Ok(p) ==> (token_values_renderable(tokens@) ==> expr_operands_ok(p.0)),
    decreases tokens@.len() - start, 2int,
{
    let len = tokens.len();
    let first = parse_unary(tokens, start)?;
    let mut expr = first.0;
    let mut pos = first.1;
    while pos < len
        invariant
            start < pos <= len,
            token_values_renderable(tokens@) ==> expr_operands_ok(expr),
        decreases len - pos,
    {
        let operator: Operation = match &tokens[pos].token {
            Token::Star => Operation::Mul,
            Token::Slash => Operation::Div,
            Token::Percent => Operation::Mod,
            _ => {
                break;
            },
        };
        pos = pos + 1;
        let right = parse_unary(tokens, pos)?;
        expr = Expression::BinaryOp {
            operator,
            left: Box::new(expr),
            right: Box::new(right.0),
        };
        pos = right.1;
    }
    Ok((expr, pos))
}

/// Parses a unary expression; no unary operators are recognised, so this
/// is a primary expression.
fn parse_unary(tokens: &Vec<SourceToken>, start: usize) -> (r: Result<(Expression, usize), String>)
    requires
        start <= tokens@.len(),
    ensures
        r matches Ok(p) ==> start < p.1 <= tokens@.len(),
        r matches Ok(p) ==> (token_values_renderable(tokens@) ==> expr_operands_ok(p.0)),
    decreases tokens@.len() - start, 1int,
{
    parse_primary(tokens, start)
}

/// Parses a primary expression: a literal, an integer, a variable, or a
/// parenthesised expression.
fn parse_primary(tokens: &Vec<SourceToken>, start: usize) -> (r: Result<
    (Expression, usize),
    String,
>)
    requires
        start <= tokens@.len(),
    ensures
        r matches Ok(p) ==> start < p.1 <= tokens@.len(),
        r matches Ok(p) ==> (token_values_renderable(tokens@) ==> expr_operands_ok(p.0)),
    decreases tokens@.len() - start, 0int,
{
    let len = tokens.len();
    if start >= len {
        return Err(String::from_str("Primary, unexpected end of input"));
    }
    let here = tokens[start].position;
    let pos = start + 1;
    match &tokens[start].token {
        Token::Literal(value) => Ok((Expression::Literal(value.clone()), pos)),
        Token::Integer(value) => Ok((Expression::Integer(*value), pos)),
        Token::Identifier(id) => Ok((Expression::Variable(id.clone()), pos)),
        Token::LParen => {
            let inner = parse_expression(tokens, pos)?;
            if inner.1 < len && matches!(&tokens[inner.1].token, Token::RParen) {
                Ok((inner.0, inner.1 + 1))
            } else {
                Err(err_at("Expected )", here))
            }
        },
        _ => Err(err_at("Primary, unexpected token", here)),
    }
}

} // verus!
