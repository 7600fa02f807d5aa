//! Queries as lists of statements.
use sqlparser::ast::Statement;
use vstd::prelude::*;

verus! {

/// `sqlparser::ast::Statement`: a parsed statement of SQL.
#[verifier::external_type_specification]
#[verifier::external_body]
pub struct ExStatement(sqlparser::ast::Statement);

/// The statements that `sqlparser` finds in `sql`, in PostgreSQL's dialect;
/// `None` where it finds an error.
pub uninterp spec fn parsed_sql(sql: Seq<char>) -> Option<Seq<Statement>>;

/// What `Display` writes of `statement`; `None` for a statement that cannot be
/// written, which no SQL text stands for.
pub uninterp spec fn statement_text(statement: Statement) -> Option<Seq<char>>;

/// Whether each of `statements` can be written.
pub open spec fn printable(statements: Seq<Statement>) -> bool {
    forall|i: int| 0 <= i < statements.len() ==> statement_text(#[trigger] statements[i]) is Some
}

/// What `Display` writes of each of `statements`.
pub open spec fn statement_texts(statements: Seq<Statement>) -> Seq<Seq<char>> {
    statements.map_values(|statement: Statement| statement_text(statement)->0)
}

/// `texts` one after the other, each with a semicolon behind it.
pub open spec fn joined(texts: Seq<Seq<char>>) -> Seq<char>
    decreases texts.len(),
{
    if texts.len() == 0 {
        Seq::empty()
    } else {
        joined(texts.drop_last()) + texts.last() + ";"@
    }
}

/// Calls `Parser::parse_sql` with `PostgreSqlDialect`. It is said to return the
/// statements that `parsed_sql` names, or an error where that is `None`. Of the
/// statements that it returns, each can be written: their identifiers are
/// unquoted, or quoted in a way that `Display` knows.
#[verifier::external_body]
fn parse_sql(sql: &str) -> (parsed: Option<Vec<Statement>>)
    ensures
        match parsed {
            Some(statements) => parsed_sql(sql@) == Some(statements@) && printable(statements@),
            None => parsed_sql(sql@) is None,
        },
{
    sqlparser::parser::Parser::parse_sql(&sqlparser::dialect::PostgreSqlDialect {}, sql).ok()
}

/// Calls `to_string` on a statement, which is said to return what `Display`
/// writes. `Display` panics on a statement built by hand that has an identifier
/// with an unknown quote, or an interval that no SQL text stands for; these are
/// left out.
#[verifier::external_body]
fn print_statement(statement: &Statement) -> (text: String)
    requires
        statement_text(*statement) is Some,
    ensures
        statement_text(*statement) == Some(text@),
{
    statement.to_string()
}

/// Puts `texts` one after the other, each with a semicolon behind it.
pub fn join_statements(texts: &Vec<String>) -> (query: String)
    ensures
        query@ == joined(crate::tables::texts(texts@)),
{
    let mut query = String::new();
    let ghost views = crate::tables::texts(texts@);
    for i in 0..texts.len()
        invariant
            views == crate::tables::texts(texts@),
            query@ == joined(views.take(i as int)),
    {
        query.append(texts[i].as_str());
        query.append(";");
        assert(views.take(i + 1).drop_last() =~= views.take(i as int));
    }
    assert(views.take(texts@.len() as int) =~= views);
    query
}

/// Turns `statements` back into the text of a query.
pub fn render_statements(statements: &Vec<Statement>) -> (query: String)
    requires
        printable(statements@),
    ensures
        query@ == joined(statement_texts(statements@)),
{
    let mut texts: Vec<String> = Vec::new();
    for i in 0..statements.len()
        invariant
            printable(statements@),
            texts@.len() == i,
            forall|j: int| 0 <= j < i ==> statement_text(statements@[j]) == Some(
                (#[trigger] texts@[j])@,
            ),
    {
        assert(statement_text(statements@[i as int]) is Some);
        texts.push(print_statement(&statements[i]));
    }
    assert(crate::tables::texts(texts@) =~= statement_texts(statements@));
    join_statements(&texts)
}

/// Two lists of statements make the query of the first, then that of the
/// second.
pub proof fn lemma_joined_append(first: Seq<Seq<char>>, second: Seq<Seq<char>>)
    ensures
        joined(first + second) == joined(first) + joined(second),
    decreases second.len(),
{
    if second.len() == 0 {
        assert(first + second =~= first);
        assert(joined(first) + joined(second) =~= joined(first));
    } else {
        lemma_joined_append(first, second.drop_last());
        assert((first + second).drop_last() =~= first + second.drop_last());
        assert(joined(first + second) =~= joined(first) + joined(second));
    }
}

/// The query that the outcome of rewriting leaves in place of `before`: the
/// rewritten statements, or `before` where rewriting failed.
pub open spec fn replaced<E>(
    before: Seq<char>,
    outcome: Result<Vec<Statement>, E>,
) -> Seq<char> {
    match outcome {
        Ok(statements) => joined(statement_texts(statements@)),
        Err(_) => before,
    }
}

/// Whether `result` hands on the error of `outcome`, if it is one.
pub open spec fn hands_on<E>(outcome: Result<Vec<Statement>, E>, result: Result<(), E>) -> bool {
    match outcome {
        Ok(_) => result is Ok,
        Err(error) => result == Err::<(), E>(error),
    }
}

/// Puts the rewritten statements in place of `query`, or hands on the error.
pub fn replace_query<E>(query: &mut String, outcome: Result<Vec<Statement>, E>) -> (result: Result<
    (),
    E,
>)
    requires
        outcome matches Ok(statements) ==> printable(statements@),
    ensures
        final(query)@ == replaced(old(query)@, outcome),
        hands_on(outcome, result),
{
    match outcome {
        Ok(statements) => {
            *query = render_statements(&statements);
            Ok(())
        },
        Err(error) => Err(error),
    }
}

/// Whether `rewrite` takes `statements`, if they can be written, and returns none
/// in their place that cannot be.
pub open spec fn rewrites_these<C, F, E>(
    statements: Seq<Statement>,
    context: &C,
    rewrite: F,
) -> bool where F: FnOnce(Vec<Statement>, &C) -> Result<Vec<Statement>, E> {
    printable(statements) ==> {
        &&& forall|given: Vec<Statement>|
            given@ == statements ==> #[trigger] call_requires(rewrite, (given, context))
        &&& forall|given: Vec<Statement>, outcome: Result<Vec<Statement>, E>|
            given@ == statements && #[trigger] call_ensures(rewrite, (given, context), outcome)
                && outcome is Ok ==> printable(outcome->Ok_0@)
    }
}

/// Whether `rewrite` takes the statements that `parsed` holds, if it holds any,
/// and returns none that cannot be written.
pub open spec fn rewrites_all_of<C, F, E>(
    parsed: Option<Seq<Statement>>,
    context: &C,
    rewrite: F,
) -> bool where F: FnOnce(Vec<Statement>, &C) -> Result<Vec<Statement>, E> {
    parsed matches Some(statements) ==> rewrites_these(statements, context, rewrite)
}

/// Whether `outcome` is what `rewrite` may make of `statements`.
pub open spec fn rewrites_to<C, F, E>(
    statements: Seq<Statement>,
    context: &C,
    rewrite: F,
    outcome: Result<Vec<Statement>, E>,
) -> bool where F: FnOnce(Vec<Statement>, &C) -> Result<Vec<Statement>, E> {
    exists|given: Vec<Statement>|
        given@ == statements && #[trigger] call_ensures(rewrite, (given, context), outcome)
}

/// Whether `after`, with `result`, is what an outcome of rewriting `statements`
/// makes of the query `before`.
pub open spec fn rewritten_from<C, F, E>(
    before: Seq<char>,
    statements: Seq<Statement>,
    context: &C,
    rewrite: F,
    after: Seq<char>,
    result: Result<(), E>,
) -> bool where F: FnOnce(Vec<Statement>, &C) -> Result<Vec<Statement>, E> {
    exists|outcome: Result<Vec<Statement>, E>| #[trigger]
        rewrites_to(statements, context, rewrite, outcome) && after == replaced(before, outcome)
            && hands_on(outcome, result)
}

/// Whether `after`, with `result`, is what rewriting makes of the query
/// `before`, whose statements are `parsed`: those statements as `rewrite`
/// rewrites them; `before` where it has none to rewrite, or where rewriting
/// failed.
pub open spec fn rewritten<C, F, E>(
    before: Seq<char>,
    parsed: Option<Seq<Statement>>,
    context: &C,
    rewrite: F,
    after: Seq<char>,
    result: Result<(), E>,
) -> bool where F: FnOnce(Vec<Statement>, &C) -> Result<Vec<Statement>, E> {
    match parsed {
        None => after == before && result is Ok,
        Some(statements) => rewritten_from(before, statements, context, rewrite, after, result),
    }
}

/// The statements that `parsed` holds, if it holds any.
pub open spec fn statement_list(parsed: Option<Vec<Statement>>) -> Option<Seq<Statement>> {
    match parsed {
        Some(statements) => Some(statements@),
        None => None,
    }
}

/// Has `rewrite` rewrite `query`, whose statements are `parsed`. A query that is
/// no SQL stays as it is.
pub fn rewrite_parsed<C, F, E>(
    query: &mut String,
    parsed: Option<Vec<Statement>>,
    context: &C,
    rewrite: F,
) -> (result: Result<(), E>) where F: FnOnce(Vec<Statement>, &C) -> Result<Vec<Statement>, E>
    requires
        rewrites_all_of(statement_list(parsed), context, rewrite),
        parsed matches Some(statements) ==> printable(statements@),
    ensures
        rewritten(
            old(query)@,
            statement_list(parsed),
            context,
            rewrite,
            final(query)@,
            result,
        ),
{
    match parsed {
        None => Ok(()),
        Some(statements) => {
            let outcome = rewrite(statements, context);
            assert(rewrites_to(statements@, context, rewrite, outcome));
            let result = replace_query(query, outcome);
            assert(rewritten_from(old(query)@, statements@, context, rewrite, query@, result));
            result
        },
    }
}

/// Has `rewrite` rewrite the statements of `query`. A query that is no SQL
/// stays as it is.
pub fn rewrite_query<C, F, E>(query: &mut String, context: &C, rewrite: F) -> (result: Result<
    (),
    E,
>) where F: FnOnce(Vec<Statement>, &C) -> Result<Vec<Statement>, E>
    requires
        rewrites_all_of(parsed_sql(old(query)@), context, rewrite),
    ensures
        rewritten(
            old(query)@,
            parsed_sql(old(query)@),
            context,
            rewrite,
            final(query)@,
            result,
        ),
{
    let parsed = parse_sql(query.as_str());
    rewrite_parsed(query, parsed, context, rewrite)
}

/// A rewritten query is made of all its statements: two lists of them, put
/// together, make the query of the first, then that of the second.
pub proof fn lemma_replaced_append<E>(
    before: Seq<char>,
    first: Vec<Statement>,
    second: Vec<Statement>,
    all: Vec<Statement>,
)
    requires
        all@ == first@ + second@,
    ensures
        replaced(before, Ok::<Vec<Statement>, E>(all)) == replaced(
            before,
            Ok::<Vec<Statement>, E>(first),
        ) + replaced(before, Ok::<Vec<Statement>, E>(second)),
{
    assert(statement_texts(all@) =~= statement_texts(first@) + statement_texts(second@));
    lemma_joined_append(statement_texts(first@), statement_texts(second@));
}

/// One statement makes a query of its text and a semicolon, and none makes an
/// empty one.
pub proof fn lemma_replaced_one<E>(
    before: Seq<char>,
    statement: Statement,
    one: Vec<Statement>,
    none: Vec<Statement>,
)
    requires
        one@ == seq![statement],
        none@.len() == 0,
    ensures
        replaced(before, Ok::<Vec<Statement>, E>(one)) == statement_text(statement)->0 + ";"@,
        replaced(before, Ok::<Vec<Statement>, E>(none)) == Seq::<char>::empty(),
{
    let texts = statement_texts(one@);
    assert(texts =~= seq![statement_text(statement)->0]);
    assert(texts.drop_last() =~= Seq::<Seq<char>>::empty());
    assert(joined(texts.drop_last()) =~= Seq::<char>::empty());
    assert(replaced(before, Ok::<Vec<Statement>, E>(one)) =~= statement_text(statement)->0
        + ";"@);
}

/// The lengths of all `texts`, added up.
pub open spec fn total_length(texts: Seq<Seq<char>>) -> nat
    decreases texts.len(),
{
    if texts.len() == 0 {
        0
    } else {
        total_length(texts.drop_last()) + texts.last().len()
    }
}

/// Each statement is written as its own text, and none is left out.
pub proof fn lemma_statement_texts(statements: Seq<Statement>, i: int)
    requires
        0 <= i < statements.len(),
    ensures
        statement_texts(statements).len() == statements.len(),
        statement_texts(statements)[i] == statement_text(statements[i])->0,
{
}

/// A joined query is as long as its texts, with one semicolon for each.
pub proof fn lemma_joined_length(texts: Seq<Seq<char>>)
    ensures
        joined(texts).len() == total_length(texts) + texts.len(),
    decreases texts.len(),
{
    reveal_strlit(";");
    if texts.len() > 0 {
        lemma_joined_length(texts.drop_last());
    }
}

/// What follows the texts before it in a joined query is a text and its
/// semicolon.
pub proof fn lemma_joined_place(texts: Seq<Seq<char>>, i: int)
    requires
        0 <= i < texts.len(),
    ensures
        ({
            let start = joined(texts.take(i)).len() as int;
            let end = start + texts[i].len();
            &&& end < joined(texts).len()
            &&& joined(texts).subrange(start, end) == texts[i]
            &&& joined(texts)[end] == ';'
        }),
{
    reveal_strlit(";");
    let start = joined(texts.take(i)).len() as int;
    let upto = texts.take(i + 1);
    assert(upto.drop_last() =~= texts.take(i));
    assert(texts =~= upto + texts.skip(i + 1));
    lemma_joined_append(upto, texts.skip(i + 1));
    assert(joined(texts).subrange(start, start + texts[i].len()) =~= texts[i]);
}

/// A query is what comes of taking its statements one by one, and adding each to
/// the text so far.
pub proof fn lemma_joined_is_folded(statements: Seq<Statement>)
    ensures
        joined(statement_texts(statements)) == statements.fold_left(
            Seq::<char>::empty(),
            |text: Seq<char>, statement: Statement| text + statement_text(statement)->0 + ";"@,
        ),
    decreases statements.len(),
{
    if statements.len() > 0 {
        lemma_joined_is_folded(statements.drop_last());
        assert(statement_texts(statements).drop_last() =~= statement_texts(
            statements.drop_last(),
        ));
    }
}

/// A query whose rewriting failed stays as it was, whatever the error, and the
/// error is handed on; where rewriting succeeded there is none.
pub proof fn lemma_error_handed_on<E>(
    before: Seq<char>,
    outcome: Result<Vec<Statement>, E>,
    result: Result<(), E>,
    error: E,
)
    requires
        hands_on(outcome, result),
    ensures
        result == Err::<(), E>(error) <==> outcome == Err::<Vec<Statement>, E>(error),
        outcome is Err ==> replaced(before, outcome) == before,
{
}

/// A query of `statements` leaves the proxy as `rewrite` has made it of those
/// statements, all of them; one that is no SQL leaves as it came.
pub proof fn lemma_rewritten_by_rewriter<C, F, E>(
    before: Seq<char>,
    parsed: Option<Vec<Statement>>,
    context: &C,
    rewrite: F,
    after: Seq<char>,
    result: Result<(), E>,
) -> (made: (Vec<Statement>, Result<Vec<Statement>, E>)) where
    F: FnOnce(Vec<Statement>, &C) -> Result<Vec<Statement>, E>,

    requires
        rewritten(before, statement_list(parsed), context, rewrite, after, result),
    ensures
        parsed is None ==> after == before && result is Ok,
        parsed matches Some(statements) ==> {
            &&& made.0@ == statements@
            &&& call_ensures(rewrite, (made.0, context), made.1)
            &&& match made.1 {
                Ok(kept) => result is Ok && after == replaced(before, Ok::<Vec<Statement>, E>(kept)),
                Err(error) => result == Err::<(), E>(error) && after == before,
            }
        },
{
    match parsed {
        None => arbitrary(),
        Some(statements) => {
            let outcome = choose|outcome: Result<Vec<Statement>, E>| #[trigger]
                rewrites_to(statements@, context, rewrite, outcome) && after == replaced(
                    before,
                    outcome,
                ) && hands_on(outcome, result);
            let given = choose|given: Vec<Statement>|
                given@ == statements@ && #[trigger] call_ensures(
                    rewrite,
                    (given, context),
                    outcome,
                );
            (given, outcome)
        },
    }
}

/// A rewriter that takes any statements, and returns only such as can be
/// written, will do for every query.
pub proof fn lemma_any_query_rewritten<C, F, E>(
    parsed: Option<Seq<Statement>>,
    context: &C,
    rewrite: F,
) where F: FnOnce(Vec<Statement>, &C) -> Result<Vec<Statement>, E>
    requires
        forall|given: Vec<Statement>|
            (forall|i: int|
                0 <= i < given@.len() ==> statement_text(#[trigger] given@[i]) is Some)
                ==> #[trigger] call_requires(rewrite, (given, context)),
        forall|given: Vec<Statement>, kept: Vec<Statement>, i: int|
            #[trigger] call_ensures(
                rewrite,
                (given, context),
                Ok::<Vec<Statement>, E>(kept),
            ) && 0 <= i < kept@.len() ==> statement_text(#[trigger] kept@[i]) is Some,
    ensures
        rewrites_all_of(parsed, context, rewrite),
{
    if let Some(statements) = parsed {
        if printable(statements) {
            assert forall|given: Vec<Statement>, outcome: Result<Vec<Statement>, E>|
                given@ == statements && #[trigger] call_ensures(
                    rewrite,
                    (given, context),
                    outcome,
                ) && outcome is Ok implies printable(outcome->Ok_0@) by {
                assert(outcome == Ok::<Vec<Statement>, E>(outcome->Ok_0));
            }
        }
    }
}

} // verus!
