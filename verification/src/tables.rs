//! The tables of the target's database and their columns.
use vstd::prelude::*;

verus! {

/// Asks for every column of every table that is not the system's own.
pub const TABLE_INFO_QUERY: &'static str = "
                SELECT table_schema, table_name, column_name, data_type
	FROM information_schema.columns
	 WHERE table_schema NOT IN ('pg_catalog', 'information_schema')
	 AND table_name !~ '^pg_';";

/// Where an answer to `TABLE_INFO_QUERY` names the table.
pub const TABLE_NAME_FIELD: usize = 1;

/// Where an answer to `TABLE_INFO_QUERY` names the column.
pub const COLUMN_NAME_FIELD: usize = 2;

/// One column of one table.
#[derive(Debug)]
pub struct ColumnRow {
    pub table_name: String,
    pub column_name: String,
}

/// A table and its columns.
#[derive(Debug)]
struct Table {
    name: String,
    columns: Vec<String>,
}

/// The columns of each table, in the order in which they were added.
#[derive(Debug)]
pub struct TableInfo {
    tables: Vec<Table>,
}

/// The texts that `strings` hold.
pub open spec fn texts(strings: Seq<String>) -> Seq<Seq<char>> {
    strings.map_values(|s: String| s@)
}

/// The names of table and column that `rows` hold.
pub open spec fn row_views(rows: Seq<ColumnRow>) -> Seq<(Seq<char>, Seq<char>)> {
    rows.map_values(|row: ColumnRow| (row.table_name@, row.column_name@))
}

/// The columns that `rows` give `table`, in their order.
pub open spec fn columns_of(rows: Seq<(Seq<char>, Seq<char>)>, table: Seq<char>) -> Seq<Seq<char>> {
    rows.filter(|row: (Seq<char>, Seq<char>)| row.0 == table).map_values(
        |row: (Seq<char>, Seq<char>)| row.1,
    )
}

/// Whether `rows` name `table`.
pub open spec fn names_table(rows: Seq<(Seq<char>, Seq<char>)>, table: Seq<char>) -> bool {
    exists|i: int| 0 <= i < rows.len() && (#[trigger] rows[i]).0 == table
}

/// The columns of each table that `rows` name.
pub open spec fn table_map(rows: Seq<(Seq<char>, Seq<char>)>) -> Map<Seq<char>, Seq<Seq<char>>> {
    Map::new(
        |table: Seq<char>| names_table(rows, table),
        |table: Seq<char>| columns_of(rows, table),
    )
}

/// Whether the table at `i` is called `name`.
spec fn called(tables: Seq<Table>, i: int, name: Seq<char>) -> bool {
    0 <= i < tables.len() && tables[i].name@ == name
}

/// No two tables have one name.
spec fn distinct_names(tables: Seq<Table>) -> bool {
    forall|i: int, j: int|
        0 <= i < tables.len() && 0 <= j < tables.len() && (#[trigger] tables[i]).name@ == (
        #[trigger] tables[j]).name@ ==> i == j
}

/// The columns of each of `tables`.
spec fn columns_by_name(tables: Seq<Table>) -> Map<Seq<char>, Seq<Seq<char>>> {
    Map::new(
        |name: Seq<char>| exists|i: int| called(tables, i, name),
        |name: Seq<char>| texts(tables[choose|i: int| called(tables, i, name)].columns@),
    )
}

proof fn lemma_columns_by_name(tables: Seq<Table>, i: int, name: Seq<char>)
    requires
        distinct_names(tables),
        called(tables, i, name),
    ensures
        columns_by_name(tables).dom().contains(name),
        columns_by_name(tables)[name] == texts(tables[i].columns@),
{
    let j = choose|j: int| called(tables, j, name);
    assert(called(tables, j, name));
    assert(tables[i].name@ == tables[j].name@);
}

proof fn lemma_table_replaced(before: Seq<Table>, after: Seq<Table>, k: int)
    requires
        distinct_names(before),
        0 <= k < before.len(),
        after == before.update(k, after[k]),
        after[k].name@ == before[k].name@,
    ensures
        distinct_names(after),
        columns_by_name(after) == columns_by_name(before).insert(
            before[k].name@,
            texts(after[k].columns@),
        ),
{
    assert forall|i: int, j: int|
        0 <= i < after.len() && 0 <= j < after.len() && (#[trigger] after[i]).name@ == (
        #[trigger] after[j]).name@ implies i == j by {
        assert(before[i].name@ == before[j].name@);
    }
    let wanted = columns_by_name(before).insert(before[k].name@, texts(after[k].columns@));
    assert forall|name: Seq<char>|
        columns_by_name(after).dom().contains(name) == wanted.dom().contains(name) by {
        if columns_by_name(after).dom().contains(name) {
            let i = choose|i: int| called(after, i, name);
            assert(called(before, i, name));
        }
        if columns_by_name(before).dom().contains(name) {
            let i = choose|i: int| called(before, i, name);
            assert(called(after, i, name));
        }
        assert(called(after, k, before[k].name@));
    }
    assert forall|name: Seq<char>|
        wanted.dom().contains(name) implies columns_by_name(after)[name] == wanted[name] by {
        let i = choose|i: int| called(after, i, name);
        lemma_columns_by_name(after, i, name);
        lemma_columns_by_name(before, i, name);
    }
    assert(columns_by_name(after) =~= wanted);
}

proof fn lemma_table_added(before: Seq<Table>, after: Seq<Table>)
    requires
        distinct_names(before),
        after.len() == before.len() + 1,
        after.drop_last() == before,
        forall|i: int| !called(before, i, after.last().name@),
    ensures
        distinct_names(after),
        columns_by_name(after) == columns_by_name(before).insert(
            after.last().name@,
            texts(after.last().columns@),
        ),
{
    let last = before.len() as int;
    assert forall|i: int| 0 <= i < last implies after[i] == before[i] by {
        assert(after.drop_last()[i] == before[i]);
    }
    assert forall|i: int, j: int|
        0 <= i < after.len() && 0 <= j < after.len() && (#[trigger] after[i]).name@ == (
        #[trigger] after[j]).name@ implies i == j by {
        if i < last && j < last {
            assert(before[i].name@ == before[j].name@);
        } else if i != j {
            let k = if i < j {
                i
            } else {
                j
            };
            assert(called(before, k, after.last().name@));
        }
    }
    let wanted = columns_by_name(before).insert(after.last().name@, texts(after.last().columns@));
    assert forall|name: Seq<char>|
        columns_by_name(after).dom().contains(name) == wanted.dom().contains(name) by {
        if columns_by_name(after).dom().contains(name) {
            let i = choose|i: int| called(after, i, name);
            if i < last {
                assert(called(before, i, name));
            }
        }
        if columns_by_name(before).dom().contains(name) {
            let i = choose|i: int| called(before, i, name);
            assert(called(after, i, name));
        }
        assert(called(after, last, after.last().name@));
    }
    assert forall|name: Seq<char>|
        wanted.dom().contains(name) implies columns_by_name(after)[name] == wanted[name] by {
        let i = choose|i: int| called(after, i, name);
        lemma_columns_by_name(after, i, name);
        if i < last {
            lemma_columns_by_name(before, i, name);
        }
    }
    assert(columns_by_name(after) =~= wanted);
}

impl View for TableInfo {
    type V = Map<Seq<char>, Seq<Seq<char>>>;

    closed spec fn view(&self) -> Map<Seq<char>, Seq<Seq<char>>> {
        columns_by_name(self.tables@)
    }
}

impl TableInfo {
    #[verifier::type_invariant]
    spec fn wf(self) -> bool {
        distinct_names(self.tables@)
    }

    /// No tables.
    pub fn new() -> (info: TableInfo)
        ensures
            info@ == Map::<Seq<char>, Seq<Seq<char>>>::empty(),
    {
        let info = TableInfo { tables: Vec::new() };
        assert(info@ =~= Map::<Seq<char>, Seq<Seq<char>>>::empty());
        info
    }

    /// The place of the table called `name`.
    fn position(&self, name: &String) -> (found: Option<usize>)
        ensures
            match found {
                Some(i) => called(self.tables@, i as int, name@),
                None => forall|i: int| !called(self.tables@, i, name@),
            },
    {
        for i in 0..self.tables.len()
            invariant
                forall|j: int| j < i ==> !called(self.tables@, j, name@),
        {
            if self.tables[i].name == *name {
                return Some(i);
            }
        }
        None
    }

    /// The columns of the table called `name`.
    pub fn get(&self, name: &String) -> (columns: Option<&Vec<String>>)
        ensures
            match columns {
                Some(c) => self@.dom().contains(name@) && self@[name@] == texts(c@),
                None => !self@.dom().contains(name@),
            },
    {
        proof {
            use_type_invariant(self);
        }
        match self.position(name) {
            Some(i) => {
                proof {
                    lemma_columns_by_name(self.tables@, i as int, name@);
                }
                Some(&self.tables[i].columns)
            },
            None => None,
        }
    }

    /// Adds a column to the table called `table_name`, and the table where it
    /// is new.
    pub fn add_column(&mut self, table_name: String, column_name: String)
        ensures
            final(self)@ == old(self)@.insert(
                table_name@,
                if old(self)@.dom().contains(table_name@) {
                    old(self)@[table_name@].push(column_name@)
                } else {
                    seq![column_name@]
                },
            ),
    {
        proof {
            use_type_invariant(&*self);
        }
        let place = self.position(&table_name);
        let mut tables: Vec<Table> = Vec::new();
        core::mem::swap(&mut tables, &mut self.tables);
        let ghost before = tables@;
        match place {
            Some(i) => {
                tables[i].columns.push(column_name);
                proof {
                    lemma_columns_by_name(before, i as int, table_name@);
                    lemma_table_replaced(before, tables@, i as int);
                    assert(texts(tables@[i as int].columns@) =~= texts(
                        before[i as int].columns@,
                    ).push(column_name@));
                }
            },
            None => {
                tables.push(Table { name: table_name, columns: vec![column_name] });
                proof {
                    assert(tables@.drop_last() =~= before);
                    lemma_table_added(before, tables@);
                    assert(texts(tables@[before.len() as int].columns@) =~= seq![column_name@]);
                }
            },
        }
        self.tables = tables;
    }
}

/// Adding a row adds its column to its table, behind the others.
proof fn lemma_table_map_push(rows: Seq<(Seq<char>, Seq<char>)>, row: (Seq<char>, Seq<char>))
    ensures
        table_map(rows.push(row)) == table_map(rows).insert(
            row.0,
            if names_table(rows, row.0) {
                table_map(rows)[row.0].push(row.1)
            } else {
                seq![row.1]
            },
        ),
{
    let all = rows.push(row);
    assert forall|table: Seq<char>|
        columns_of(all, table) == if table == row.0 {
            columns_of(rows, table).push(row.1)
        } else {
            columns_of(rows, table)
        } by {
        lemma_columns_append(rows, seq![row], table);
        lemma_columns_of_one(row, table);
        assert(rows + seq![row] =~= all);
    }
    assert forall|table: Seq<char>|
        names_table(all, table) == (table == row.0 || names_table(rows, table)) by {
        assert(all[rows.len() as int] == row);
        if names_table(rows, table) {
            let i = choose|i: int| 0 <= i < rows.len() && (#[trigger] rows[i]).0 == table;
            assert(all[i].0 == table);
        }
        if names_table(all, table) {
            let i = choose|i: int| 0 <= i < all.len() && (#[trigger] all[i]).0 == table;
            if i < rows.len() {
                assert(rows[i].0 == table);
            }
        }
    }
    if !names_table(rows, row.0) {
        lemma_unnamed_has_no_columns(rows, row.0);
        assert(columns_of(rows, row.0).push(row.1) =~= seq![row.1]);
    }
    assert(table_map(all) =~= table_map(rows).insert(
        row.0,
        if names_table(rows, row.0) {
            table_map(rows)[row.0].push(row.1)
        } else {
            seq![row.1]
        },
    ));
}

proof fn lemma_columns_of_one(row: (Seq<char>, Seq<char>), table: Seq<char>)
    ensures
        columns_of(seq![row], table) == if row.0 == table {
            seq![row.1]
        } else {
            Seq::empty()
        },
{
    reveal_with_fuel(Seq::filter, 2);
    assert(seq![row].drop_last() =~= Seq::<(Seq<char>, Seq<char>)>::empty());
    assert(columns_of(seq![row], table) =~= if row.0 == table {
        seq![row.1]
    } else {
        Seq::empty()
    });
}

/// The columns that two lists of rows give a table are those of the first, then
/// those of the second.
pub proof fn lemma_columns_append(
    first: Seq<(Seq<char>, Seq<char>)>,
    second: Seq<(Seq<char>, Seq<char>)>,
    table: Seq<char>,
)
    ensures
        columns_of(first + second, table) == columns_of(first, table) + columns_of(second, table),
{
    let chosen = |row: (Seq<char>, Seq<char>)| row.0 == table;
    Seq::filter_distributes_over_add(first, second, chosen);
    assert(columns_of(first + second, table) =~= columns_of(first, table) + columns_of(
        second,
        table,
    ));
}

/// A table has exactly the columns of the rows that name it.
pub proof fn lemma_column_of_table(
    rows: Seq<(Seq<char>, Seq<char>)>,
    table: Seq<char>,
    column: Seq<char>,
)
    ensures
        columns_of(rows, table).contains(column) <==> rows.contains((table, column)),
    decreases rows.len(),
{
    if rows.len() == 0 {
        reveal(Seq::filter);
    } else {
        let earlier = rows.drop_last();
        let row = rows.last();
        lemma_column_of_table(earlier, table, column);
        lemma_columns_append(earlier, seq![row], table);
        lemma_columns_of_one(row, table);
        assert(earlier + seq![row] =~= rows);
        let before = columns_of(earlier, table);
        let added = columns_of(seq![row], table);
        if columns_of(rows, table).contains(column) {
            let i = choose|i: int| 0 <= i < (before + added).len() && (before + added)[i] == column;
            if i < before.len() {
                assert(before[i] == column);
                let k = choose|k: int| 0 <= k < earlier.len() && earlier[k] == (table, column);
                assert(rows[k] == (table, column));
            } else {
                assert(rows[rows.len() - 1] == (table, column));
            }
        }
        if rows.contains((table, column)) {
            let k = choose|k: int| 0 <= k < rows.len() && rows[k] == (table, column);
            if k < earlier.len() {
                assert(earlier[k] == (table, column));
                let i = choose|i: int| 0 <= i < before.len() && before[i] == column;
                assert((before + added)[i] == column);
            } else {
                assert((before + added)[before.len() as int] == column);
            }
        }
    }
}

proof fn lemma_unnamed_has_no_columns(rows: Seq<(Seq<char>, Seq<char>)>, table: Seq<char>)
    requires
        !names_table(rows, table),
    ensures
        columns_of(rows, table) == Seq::<Seq<char>>::empty(),
{
    let columns = columns_of(rows, table);
    if columns.len() > 0 {
        lemma_column_of_table(rows, table, columns[0]);
        assert(columns.contains(columns[0]));
        let k = choose|k: int| 0 <= k < rows.len() && rows[k] == (table, columns[0]);
        assert(rows[k].0 == table);
    }
    assert(columns =~= Seq::<Seq<char>>::empty());
}

/// Gathers `rows` by their tables.
pub fn get_table_info(rows: Vec<ColumnRow>) -> (info: TableInfo)
    ensures
        info@ == table_map(row_views(rows@)),
{
    let mut info = TableInfo::new();
    let ghost views = row_views(rows@);
    assert(table_map(views.take(0)) =~= Map::<Seq<char>, Seq<Seq<char>>>::empty());
    for i in 0..rows.len()
        invariant
            views == row_views(rows@),
            info@ == table_map(views.take(i as int)),
    {
        info.add_column(rows[i].table_name.clone(), rows[i].column_name.clone());
        proof {
            lemma_table_map_push(views.take(i as int), views[i as int]);
            assert(views.take(i + 1) =~= views.take(i as int).push(views[i as int]));
        }
    }
    assert(views.take(rows@.len() as int) =~= views);
    info
}

/// How many of `rows` name `table`.
pub open spec fn rows_naming(rows: Seq<ColumnRow>, table: Seq<char>) -> nat
    decreases rows.len(),
{
    if rows.len() == 0 {
        0
    } else if rows.last().table_name@ == table {
        rows_naming(rows.drop_last(), table) + 1
    } else {
        rows_naming(rows.drop_last(), table)
    }
}

/// Each row is seen as it is, and none is left out.
pub proof fn lemma_row_views(rows: Seq<ColumnRow>, i: int)
    requires
        0 <= i < rows.len(),
    ensures
        row_views(rows).len() == rows.len(),
        row_views(rows)[i] == (rows[i].table_name@, rows[i].column_name@),
{
}

/// A table has as many columns as there are rows that name it.
pub proof fn lemma_as_many_columns_as_rows(rows: Seq<ColumnRow>, table: Seq<char>)
    ensures
        columns_of(row_views(rows), table).len() == rows_naming(rows, table),
    decreases rows.len(),
{
    let views = row_views(rows);
    if rows.len() == 0 {
        reveal(Seq::filter);
    } else {
        let row = views[rows.len() - 1];
        lemma_row_views(rows, rows.len() - 1);
        lemma_as_many_columns_as_rows(rows.drop_last(), table);
        assert(views =~= row_views(rows.drop_last()) + seq![row]);
        lemma_columns_append(row_views(rows.drop_last()), seq![row], table);
        lemma_columns_of_one(row, table);
    }
}

/// The column of every row stands in the table that the row names, behind those
/// of the rows before it, and the table has no more columns than rows that name
/// it.
pub proof fn lemma_every_row_gathered(rows: Seq<ColumnRow>, i: int)
    requires
        0 <= i < rows.len(),
    ensures
        ({
            let info = table_map(row_views(rows));
            let table = rows[i].table_name@;
            &&& info.dom().contains(table)
            &&& info[table].len() == rows_naming(rows, table)
            &&& rows_naming(rows.take(i), table) < rows_naming(rows, table)
            &&& info[table][rows_naming(rows.take(i), table) as int] == rows[i].column_name@
        }),
{
    let views = row_views(rows);
    let table = rows[i].table_name@;
    lemma_row_views(rows, i);
    assert(views[i].0 == table);
    assert(names_table(views, table));
    let before = row_views(rows.take(i));
    let rest = views.skip(i + 1);
    assert(views =~= before + seq![views[i]] + rest);
    lemma_columns_append(before + seq![views[i]], rest, table);
    lemma_columns_append(before, seq![views[i]], table);
    lemma_columns_of_one(views[i], table);
    lemma_as_many_columns_as_rows(rows.take(i), table);
    lemma_as_many_columns_as_rows(rows, table);
}

/// There are the tables that some row names, and no others.
pub proof fn lemma_only_named_tables(rows: Seq<ColumnRow>, table: Seq<char>)
    ensures
        table_map(row_views(rows)).dom().contains(table) <==> exists|i: int|
            0 <= i < rows.len() && (#[trigger] rows[i]).table_name@ == table,
{
    let views = row_views(rows);
    if names_table(views, table) {
        let i = choose|i: int| 0 <= i < views.len() && (#[trigger] views[i]).0 == table;
        assert(rows[i].table_name@ == table);
    }
    if exists|i: int| 0 <= i < rows.len() && (#[trigger] rows[i]).table_name@ == table {
        let i = choose|i: int| 0 <= i < rows.len() && (#[trigger] rows[i]).table_name@ == table;
        lemma_row_views(rows, i);
        assert(views[i].0 == table);
    }
}

/// Each text is seen as it is, and none is left out.
pub proof fn lemma_texts(strings: Seq<String>, i: int)
    requires
        0 <= i < strings.len(),
    ensures
        texts(strings).len() == strings.len(),
        texts(strings)[i] == strings[i]@,
{
}

/// The places at which an answer names the table and the column are those at
/// which the question asks for them, of all columns that are not the system's.
pub proof fn lemma_question_asks_for_names(fields: Seq<Seq<char>>)
    requires
        fields == seq!["table_schema"@, "table_name"@, "column_name"@, "data_type"@],
    ensures
        fields[TABLE_NAME_FIELD as int] == "table_name"@,
        fields[COLUMN_NAME_FIELD as int] == "column_name"@,
        TABLE_INFO_QUERY@ == "\n                SELECT "@ + fields[0] + ", "@ + fields[1] + ", "@
            + fields[2] + ", "@ + fields[3]
            + "\n\tFROM information_schema.columns\n\t WHERE table_schema NOT IN ('pg_catalog', 'information_schema')\n\t AND table_name !~ '^pg_';"@,
{
    reveal_strlit("\n                SELECT table_schema, table_name, column_name, data_type\n\tFROM information_schema.columns\n\t WHERE table_schema NOT IN ('pg_catalog', 'information_schema')\n\t AND table_name !~ '^pg_';");
    reveal_strlit("table_schema");
    reveal_strlit("table_name");
    reveal_strlit("column_name");
    reveal_strlit("data_type");
    reveal_strlit(", ");
    reveal_strlit("\n                SELECT ");
    reveal_strlit("\n\tFROM information_schema.columns\n\t WHERE table_schema NOT IN ('pg_catalog', 'information_schema')\n\t AND table_name !~ '^pg_';");
    assert(TABLE_INFO_QUERY@ =~= "\n                SELECT "@ + fields[0] + ", "@ + fields[1] + ", "@ + fields[2] + ", "@
        + fields[3]
        + "\n\tFROM information_schema.columns\n\t WHERE table_schema NOT IN ('pg_catalog', 'information_schema')\n\t AND table_name !~ '^pg_';"@);
}

} // verus!
