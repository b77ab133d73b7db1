use akasha::ast::{Arena, NodeId, TokenKind};
use akasha::compiler::PlanCompiler;
use akasha::exec::{build_tuple, plan_insert, run_ops, Execution, OpsPipeline, QueryExecutor};
use akasha::heap::{InsertAction, TableHeap};
use akasha::pool::{BufferPool, Fetch, WriteJob};
use akasha::query::{
    ComparisonOperator, PredicateExpr, RowOperand, RowPredicate, IdentityOptimizer, QueryError, QueryExpr, TableOp, Transaction, TransformError,
};
use akasha::table::{ColumnInfo, DbInternalError, TableCatalog, TableInfo};
use akasha::transformer::AstToQueryTransformer;
use akasha::value::{DataType, Tuple, Value};
use std::collections::HashMap;

struct Db {
    pool: BufferPool,
    disk: HashMap<(u32, u32), Vec<u8>>,
    catalog: TableCatalog,
}

fn write(disk: &mut HashMap<(u32, u32), Vec<u8>>, job: Option<WriteJob>) {
    if let Some(w) = job {
        disk.insert((w.file_id, w.page_id), w.data);
    }
}

fn pin(pool: &mut BufferPool, disk: &mut HashMap<(u32, u32), Vec<u8>>, file: u32, page: u32) -> usize {
    match pool.get_page(file, page) {
        Fetch::Hit(f) => f,
        Fetch::Load { frame, write_back } => {
            write(disk, write_back);
            let data = disk.get(&(file, page)).cloned();
            pool.complete_load(file, page, frame, data);
            frame
        }
        Fetch::Busy => panic!("every frame is pinned"),
    }
}

fn insert(pool: &mut BufferPool, disk: &mut HashMap<(u32, u32), Vec<u8>>, heap: &mut TableHeap, t: &Tuple) {
    let mut cursor = 0usize;
    loop {
        let pid = heap.target(cursor);
        let frame = pin(pool, disk, heap.file_id, pid);
        match heap.insert_next(pool, &mut cursor, frame, t) {
            InsertAction::Done { write_back, .. } => {
                write(disk, write_back);
                return;
            }
            InsertAction::Pin(_) => {}
            InsertAction::Failed(e) => panic!("{:?}", e),
        }
    }
}

fn scan(pool: &mut BufferPool, disk: &mut HashMap<(u32, u32), Vec<u8>>, heap: &TableHeap) -> Vec<Tuple> {
    let mut cursor = heap.scan();
    let mut rows = Vec::new();
    while let Some(pid) = cursor.next_page() {
        let frame = pin(pool, disk, heap.file_id, pid);
        rows.extend(cursor.scan_page(pool, frame).expect("page decodes"));
    }
    rows
}

fn page_count(disk: &HashMap<(u32, u32), Vec<u8>>, file: u32) -> u32 {
    disk.keys().filter(|(f, _)| *f == file).map(|(_, p)| p + 1).max().unwrap_or(0)
}

fn load(pool: &mut BufferPool, disk: &mut HashMap<(u32, u32), Vec<u8>>) -> Result<TableCatalog, DbInternalError> {
    let relations = TableHeap::from_existing(0, page_count(disk, 0));
    let columns = TableHeap::from_existing(1, page_count(disk, 1));
    let relation_rows = scan(pool, disk, &relations);
    let column_rows = scan(pool, disk, &columns);
    let mut counts = Vec::new();
    for r in &relation_rows {
        let id = r.0[0].as_int().unwrap() as u32;
        counts.push(page_count(disk, id));
    }
    TableCatalog::load(relations, columns, &relation_rows, &column_rows, &counts)
}

fn column(id: u32, name: &str, data_type: DataType) -> ColumnInfo {
    ColumnInfo { id, name: name.to_string(), data_type, nullable: false, default: None }
}

fn fresh_db(pool: BufferPool) -> Db {
    let mut db = Db { pool, disk: HashMap::new(), catalog: TableCatalog::new(TableHeap::new(0), TableHeap::new(1)) };
    let mut relations = TableHeap::new(0);
    let mut columns = TableHeap::new(1);
    let (rel_rows, col_rows) = TableCatalog::bootstrap_rows();
    for r in &col_rows {
        insert(&mut db.pool, &mut db.disk, &mut columns, r);
    }
    for r in &rel_rows {
        insert(&mut db.pool, &mut db.disk, &mut relations, r);
    }
    for job in db.pool.flush() {
        db.disk.insert((job.file_id, job.page_id), job.data);
    }
    db.catalog = load(&mut db.pool, &mut db.disk).expect("bootstrap loads");
    let info = TableInfo::from_columns(vec![column(0, "name", DataType::Text), column(1, "age", DataType::Int)])
        .expect("valid columns");
    let rows = db.catalog.create_table("users".to_string(), info).expect("new table");
    for r in &rows.column_rows {
        insert(&mut db.pool, &mut db.disk, &mut db.catalog.columns, r);
    }
    insert(&mut db.pool, &mut db.disk, &mut db.catalog.relations, &rows.relation_row);
    db
}

fn run(db: &mut Db, arena: &Arena, root: NodeId) -> Result<Vec<Tuple>, String> {
    let mut transformer = AstToQueryTransformer::new(arena, IdentityOptimizer);
    let expr = transformer.transform(root).map_err(|e| format!("{:?}", e))?;
    let mut compiler = PlanCompiler::new();
    let tx = compiler.compile(&db.catalog, &expr).map_err(|e| format!("{:?}", e))?;
    execute(db, tx)
}

fn execute(db: &mut Db, tx: Transaction) -> Result<Vec<Tuple>, String> {
    match QueryExecutor::new().execute(&db.catalog, tx).map_err(|e| format!("{:?}", e))? {
        Execution::Select { table, mut pipeline } => {
            let mut out = Vec::new();
            let mut cursor = db.catalog.tables[table].heap.scan();
            while let Some(pid) = cursor.next_page() {
                if pipeline.is_done() {
                    break;
                }
                let file = cursor.file_id;
                let frame = pin(&mut db.pool, &mut db.disk, file, pid);
                for row in cursor.scan_page(&mut db.pool, frame).expect("page decodes") {
                    if let Some(t) = pipeline.push(row) {
                        out.push(t);
                    }
                }
            }
            Ok(out)
        }
        Execution::Insert { table, plan } => {
            insert(&mut db.pool, &mut db.disk, &mut db.catalog.tables[table].heap, &plan.tuple);
            Ok(plan.output)
        }
    }
}

#[test]
fn executor_reports_missing_tables() {
    let db = fresh_db(BufferPool::new());
    let tx = Transaction::Select { table: "ghost".into(), ops: vec![] };
    assert!(matches!(QueryExecutor::new().execute(&db.catalog, tx), Err(QueryError::TableNotFound(t)) if t == "ghost"));
}

fn call(arena: &mut Arena, func: &str, args: &[NodeId]) -> NodeId {
    let f = arena.create_reference(func);
    arena.create_function_call(f, args)
}

fn insert_row(arena: &mut Arena, name: &str, age: &str) -> NodeId {
    let n = arena.create_string_lit(name);
    let a = arena.create_number(age);
    let row = arena.create_instance(&[("name", n), ("age", a)]);
    let users = arena.create_reference("users");
    call(arena, "insert_", &[row, users])
}

fn scan_users(arena: &mut Arena) -> NodeId {
    let users = arena.create_reference("users");
    call(arena, "scan", &[users])
}

fn insert_person(db: &mut Db, name: &str, age: i32) {
    let mut arena = Arena::new();
    let root = insert_row(&mut arena, name, &age.to_string());
    assert!(run(db, &arena, root).expect("insert runs").is_empty());
}

fn text(v: &Value) -> String {
    v.as_string().expect("text")
}

#[test]
fn lifecycle_and_insert() {
    let mut db = fresh_db(BufferPool::new());
    assert_eq!(db.catalog.get_table("users").unwrap().file_id, 2);
    insert_person(&mut db, "Alice", 30);
    let mut arena = Arena::new();
    let root = scan_users(&mut arena);
    let rows = run(&mut db, &arena, root).unwrap();
    assert_eq!(rows.len(), 1);
    assert_eq!(text(&rows[0].0[0]), "Alice");
    assert!(matches!(rows[0].0[1], Value::Int(30)));
}

#[test]
fn filter_project_limit() {
    let mut db = fresh_db(BufferPool::new());
    insert_person(&mut db, "Alice", 30);
    insert_person(&mut db, "Bob", 25);
    insert_person(&mut db, "Carol", 40);
    let mut arena = Arena::new();
    let s = scan_users(&mut arena);
    let r = arena.create_reference("r");
    let age = arena.create_field_access(r, "age");
    let n26 = arena.create_number("26");
    let cond = arena.create_binary_op(TokenKind::GreaterThan, age, n26);
    let lambda = arena.create_lambda(&["r"], cond);
    let filtered = call(&mut arena, "filter", &[lambda, s]);
    let name = arena.create_reference("name");
    let projected = call(&mut arena, "project", &[name, filtered]);
    let two = arena.create_number("2");
    let root = call(&mut arena, "limit", &[two, projected]);
    let rows = run(&mut db, &arena, root).unwrap();
    assert_eq!(rows.len(), 2);
    assert_eq!(rows[0].0.len(), 1);
    assert_eq!(text(&rows[0].0[0]), "Alice");
    assert_eq!(text(&rows[1].0[0]), "Carol");
}

#[test]
fn offset_then_limit() {
    let mut db = fresh_db(BufferPool::new());
    for age in 1..=5 {
        insert_person(&mut db, &format!("p{}", age), age);
    }
    let mut arena = Arena::new();
    let s = scan_users(&mut arena);
    let two = arena.create_number("2");
    let off = call(&mut arena, "offset", &[two, s]);
    let two_again = arena.create_number("2");
    let root = call(&mut arena, "limit", &[two_again, off]);
    let rows = run(&mut db, &arena, root).unwrap();
    let ages: Vec<i32> = rows.iter().map(|t| t.0[1].as_int().unwrap()).collect();
    assert_eq!(ages, vec![3, 4]);
}

#[test]
fn insert_returning() {
    let mut db = fresh_db(BufferPool::new());
    let mut arena = Arena::new();
    let n = arena.create_string_lit("Eve");
    let a = arena.create_number("22");
    let row = arena.create_instance(&[("name", n), ("age", a)]);
    let cols = arena.create_reference("name");
    let users = arena.create_reference("users");
    let root = call(&mut arena, "insert", &[row, cols, users]);
    let rows = run(&mut db, &arena, root).unwrap();
    assert_eq!(rows.len(), 1);
    assert_eq!(rows[0].0.len(), 1);
    assert_eq!(text(&rows[0].0[0]), "Eve");
    let mut arena = Arena::new();
    let root = scan_users(&mut arena);
    assert_eq!(run(&mut db, &arena, root).unwrap().len(), 1);
}

#[test]
fn eviction_then_durability_across_reopen() {
    let mut db = fresh_db(BufferPool::with_capacity(2, 4));
    let idx = db.catalog.find_table("users").unwrap();
    for i in 0..10_000 {
        let t = Tuple(vec![Value::Text(format!("user{}", i)), Value::Int(i)]);
        insert(&mut db.pool, &mut db.disk, &mut db.catalog.tables[idx].heap, &t);
    }
    let mut arena = Arena::new();
    let root = scan_users(&mut arena);
    assert_eq!(run(&mut db, &arena, root).unwrap().len(), 10_000);
    assert!(db.pool.shards.iter().all(|s| s.meta.iter().all(|m| m.pin == 0)));
    for job in db.pool.flush() {
        db.disk.insert((job.file_id, job.page_id), job.data);
    }
    let mut disk = std::mem::take(&mut db.disk);
    drop(db);
    let mut pool = BufferPool::with_capacity(2, 4);
    let catalog = load(&mut pool, &mut disk).expect("reloads");
    let users = catalog.get_table("users").expect("users survives");
    assert_eq!(users.info.get_column_index("age"), Some(1));
    let rows = scan(&mut pool, &mut disk, &users.heap);
    assert_eq!(rows.len(), 10_000);
    assert_eq!(text(&rows[1234].0[0]), "user1234");
}

#[test]
fn create_table_rejects_a_taken_name() {
    let mut db = fresh_db(BufferPool::new());
    let info = TableInfo::from_columns(vec![column(0, "x", DataType::Int)]).unwrap();
    match db.catalog.create_table("users".to_string(), info) {
        Err(DbInternalError::TableAlreadyExists(n)) => assert_eq!(n, "users"),
        other => panic!("{:?}", other.map(|_| ())),
    }
    let info = TableInfo::from_columns(vec![column(0, "x", DataType::Int)]).unwrap();
    assert!(db.catalog.create_table("other".to_string(), info).is_ok());
    assert_eq!(db.catalog.get_table("other").unwrap().file_id, 3);
}

#[test]
fn table_info_orders_columns_by_id() {
    let info = TableInfo::from_columns(vec![column(1, "b", DataType::Int), column(0, "a", DataType::Text)]).unwrap();
    assert_eq!(info.columns[0].name, "a");
    assert_eq!(info.get_column_index("b"), Some(1));
    assert_eq!(info.get_column_index("zzz"), None);
    assert!(TableInfo::from_columns(vec![column(0, "a", DataType::Int), column(0, "b", DataType::Int)]).is_none());
    assert!(TableInfo::from_columns(vec![column(0, "a", DataType::Int), column(1, "a", DataType::Int)]).is_none());
    assert!(TableInfo::from_columns(vec![column(2, "a", DataType::Int)]).is_none());
}

#[test]
fn defaults_and_nulls_fill_missing_columns() {
    let mut with_default = column(1, "age", DataType::Int);
    with_default.default = Some(Value::Int(18));
    let mut nullable = column(2, "note", DataType::Text);
    nullable.nullable = true;
    let info = TableInfo::from_columns(vec![column(0, "name", DataType::Text), with_default, nullable]).unwrap();
    let t = build_tuple(&info, &vec![(0, Value::Text("Zed".into()))]).unwrap();
    assert!(matches!(t.0[1], Value::Int(18)));
    assert!(matches!(t.0[2], Value::Null));
    match build_tuple(&info, &vec![(1, Value::Int(3))]) {
        Err(QueryError::MissingValueForNonNullable(n)) => assert_eq!(n, "name"),
        other => panic!("{:?}", other),
    }
    let last_wins = build_tuple(&info, &vec![(0, Value::Text("a".into())), (0, Value::Text("b".into()))]).unwrap();
    assert_eq!(text(&last_wins.0[0]), "b");
}

#[test]
fn defaults_survive_a_reload() {
    let mut db = fresh_db(BufferPool::new());
    let mut c = column(0, "k", DataType::Int);
    c.default = Some(Value::Text("dflt".into()));
    let info = TableInfo::from_columns(vec![c]).unwrap();
    let rows = db.catalog.create_table("t".to_string(), info).unwrap();
    for r in &rows.column_rows {
        insert(&mut db.pool, &mut db.disk, &mut db.catalog.columns, r);
    }
    insert(&mut db.pool, &mut db.disk, &mut db.catalog.relations, &rows.relation_row);
    for job in db.pool.flush() {
        db.disk.insert((job.file_id, job.page_id), job.data);
    }
    let mut pool = BufferPool::new();
    let catalog = load(&mut pool, &mut db.disk).unwrap();
    let t = catalog.get_table("t").unwrap();
    assert_eq!(text(t.info.columns[0].default.as_ref().unwrap()), "dflt");
}

#[test]
fn compiler_reports_named_errors() {
    let db = fresh_db(BufferPool::new());
    let mut compiler = PlanCompiler::new();
    let missing = QueryExpr::Transaction {
        typ: akasha::query::TransactionType::Scan { table_name: "nope".into() },
        operations: vec![akasha::query::TransactionOp::Project { columns: vec!["a".into()] }],
    };
    assert!(matches!(compiler.compile(&db.catalog, &missing), Err(QueryError::TableNotFound(t)) if t == "nope"));
    let bad_col = QueryExpr::Transaction {
        typ: akasha::query::TransactionType::Scan { table_name: "users".into() },
        operations: vec![akasha::query::TransactionOp::Project { columns: vec!["zip".into()] }],
    };
    assert!(matches!(compiler.compile(&db.catalog, &bad_col), Err(QueryError::ColumnNotFound(c, t)) if c == "zip" && t == "users"));
    assert!(matches!(compiler.compile(&db.catalog, &QueryExpr::Literal(Value::Int(1))), Err(QueryError::NotATransaction)));
    assert!(matches!(compiler.compile(&db.catalog, &QueryExpr::Reference("x".into())), Err(QueryError::SymbolNotFound(x)) if x == "x"));
    let not_row = QueryExpr::Transaction {
        typ: akasha::query::TransactionType::Insert {
            table_name: "users".into(),
            value: Box::new(QueryExpr::Literal(Value::Int(1))),
            returning: None,
        },
        operations: vec![],
    };
    assert!(matches!(compiler.compile(&db.catalog, &not_row), Err(QueryError::ExpectedRow)));
    let nested = QueryExpr::Transaction {
        typ: akasha::query::TransactionType::Insert {
            table_name: "users".into(),
            value: Box::new(QueryExpr::Instance(vec![("name".into(), QueryExpr::Instance(vec![]))])),
            returning: None,
        },
        operations: vec![],
    };
    assert!(matches!(compiler.compile(&db.catalog, &nested), Err(QueryError::RowCannotBeEmbeddedIntoAnotherRow)));
}

#[test]
fn let_bindings_are_lexical() {
    let db = fresh_db(BufferPool::new());
    let mut compiler = PlanCompiler::new();
    let scan = QueryExpr::Transaction {
        typ: akasha::query::TransactionType::Scan { table_name: "users".into() },
        operations: vec![],
    };
    let bound = QueryExpr::Binding {
        name: "q".into(),
        value: Box::new(scan),
        body: Box::new(QueryExpr::Reference("q".into())),
    };
    assert!(matches!(compiler.compile(&db.catalog, &bound), Ok(Transaction::Select { table, .. }) if table == "users"));
    let selfish = QueryExpr::Binding {
        name: "x".into(),
        value: Box::new(QueryExpr::Reference("x".into())),
        body: Box::new(QueryExpr::Reference("x".into())),
    };
    assert!(matches!(compiler.compile(&db.catalog, &selfish), Err(QueryError::SymbolNotFound(_))));
}

#[test]
fn transformer_reports_errors() {
    let mut arena = Arena::new();
    let x = arena.create_reference("x");
    let fa = arena.create_field_access(x, "y");
    let mut t = AstToQueryTransformer::new(&arena, IdentityOptimizer);
    assert!(matches!(t.transform(fa), Err(TransformError::InvalidFieldAccess)));

    let mut arena = Arena::new();
    let n = arena.create_number("12abc");
    let mut t = AstToQueryTransformer::new(&arena, IdentityOptimizer);
    assert!(matches!(t.transform(n), Err(TransformError::InvalidNumber)));

    let mut arena = Arena::new();
    let a = arena.create_number("1");
    let root = call(&mut arena, "scan", &[a, a]);
    let mut t = AstToQueryTransformer::new(&arena, IdentityOptimizer);
    assert!(matches!(t.transform(root),
        Err(TransformError::WrongNumberOfArguments { name, expected: 1, found: 2 }) if name == "scan"));

    let mut arena = Arena::new();
    let a = arena.create_number("1");
    let s = scan_users(&mut arena);
    let root = call(&mut arena, "filter", &[a, s]);
    let mut t = AstToQueryTransformer::new(&arena, IdentityOptimizer);
    assert!(matches!(t.transform(root), Err(TransformError::ExpectedLambda)));

    let mut arena = Arena::new();
    let a = arena.create_number("1");
    let b = arena.create_number("2");
    let cond = arena.create_binary_op(TokenKind::Plus, a, b);
    let lambda = arena.create_lambda(&["r"], cond);
    let s = scan_users(&mut arena);
    let root = call(&mut arena, "filter", &[lambda, s]);
    let mut t = AstToQueryTransformer::new(&arena, IdentityOptimizer);
    assert!(matches!(t.transform(root), Err(TransformError::UnsupportedOperator(TokenKind::Plus))));
}

#[test]
fn transformer_lowers_literals_and_lets() {
    let mut arena = Arena::new();
    let n = arena.create_number("42");
    let mut t = AstToQueryTransformer::new(&arena, IdentityOptimizer);
    assert!(matches!(t.transform(n), Ok(QueryExpr::Literal(Value::Int(42)))));

    let mut arena = Arena::new();
    let s = arena.create_string_lit("hi");
    let mut t = AstToQueryTransformer::new(&arena, IdentityOptimizer);
    assert!(matches!(t.transform(s), Ok(QueryExpr::Literal(Value::Text(x))) if x == "hi"));

    let mut arena = Arena::new();
    let b = arena.create_bool(true);
    let mut t = AstToQueryTransformer::new(&arena, IdentityOptimizer);
    assert!(matches!(t.transform(b), Ok(QueryExpr::Literal(Value::Boolean(true)))));

    let mut arena = Arena::new();
    let v = arena.create_number("7");
    let body = arena.create_reference("k");
    let root = arena.create_let("k", v, body);
    let mut t = AstToQueryTransformer::new(&arena, IdentityOptimizer);
    match t.transform(root) {
        Ok(QueryExpr::Binding { name, body, .. }) => {
            assert_eq!(name, "k");
            assert!(matches!(*body, QueryExpr::Literal(Value::Int(7))));
        }
        other => panic!("{:?}", other),
    }
}

#[test]
fn like_and_predicates_filter_rows() {
    let rows = vec![
        Tuple(vec![Value::Text("apple".into()), Value::Int(1)]),
        Tuple(vec![Value::Text("banana".into()), Value::Int(2)]),
        Tuple(vec![Value::Text("grape".into()), Value::Null]),
    ];
    let like = vec![TableOp::Filter { column_index: 0, operator: ComparisonOperator::Like, value: Value::Text("ap".into()) }];
    assert_eq!(run_ops(like, rows.clone()).len(), 2);
    let not_like = vec![TableOp::Filter { column_index: 0, operator: ComparisonOperator::NotLike, value: Value::Text("ap".into()) }];
    let kept = run_ops(not_like, rows.clone());
    assert_eq!(kept.len(), 1);
    assert_eq!(text(&kept[0].0[0]), "banana");
    let le = vec![TableOp::Filter { column_index: 1, operator: ComparisonOperator::LtEq, value: Value::Int(1) }];
    assert_eq!(run_ops(le, rows.clone()).len(), 2);
    let p = RowPredicate::Or(
        Box::new(RowPredicate::IsNull(RowOperand::Column(1))),
        Box::new(RowPredicate::Compare {
            left: RowOperand::Column(1),
            op: ComparisonOperator::Eq,
            right: RowOperand::Literal(Value::Int(2)),
        }),
    );
    let kept = run_ops(vec![TableOp::PredicativeFilter(p)], rows.clone());
    let names: Vec<String> = kept.iter().map(|t| text(&t.0[0])).collect();
    assert_eq!(names, vec!["banana".to_string(), "grape".to_string()]);
}

#[test]
fn pipeline_counts_offsets_and_limits() {
    let p = OpsPipeline::new(vec![TableOp::Offset(2), TableOp::Limit(5), TableOp::Offset(1), TableOp::Limit(3), TableOp::Limit(-4)]);
    assert_eq!(p.offset_remaining, 3);
    assert_eq!(p.limit, Some(0));
    let q = OpsPipeline::new(vec![TableOp::Project(vec![1, 0])]);
    assert_eq!(q.offset_remaining, 0);
    assert_eq!(q.limit, None);
    let out = q.apply_ops_to_tuple(Tuple(vec![Value::Int(1), Value::Int(2)])).unwrap();
    assert!(matches!(out.0[0], Value::Int(2)));
    assert!(matches!(out.0[1], Value::Int(1)));
}

#[test]
fn returning_projection_runs_through_ops() {
    let info = TableInfo::from_columns(vec![column(0, "name", DataType::Text), column(1, "age", DataType::Int)]).unwrap();
    let values = vec![(0, Value::Text("Eve".into())), (1, Value::Int(22))];
    let plan = plan_insert(&info, &values, vec![], &Some(vec![1])).unwrap();
    assert_eq!(plan.output.len(), 1);
    assert!(matches!(plan.output[0].0[0], Value::Int(22)));
    let silent = plan_insert(&info, &values, vec![], &None).unwrap();
    assert!(silent.output.is_empty());
    assert!(matches!(silent.tuple.0[1], Value::Int(22)));
}

#[test]
fn more_transform_errors() {
    let mut arena = Arena::new();
    let body = arena.create_bool(true);
    let lambda = arena.create_lambda(&["a", "b"], body);
    let s = scan_users(&mut arena);
    let root = call(&mut arena, "filter", &[lambda, s]);
    let mut t = AstToQueryTransformer::new(&arena, IdentityOptimizer);
    assert!(matches!(t.transform(root), Err(TransformError::InvalidLambdaParams)));

    let mut arena = Arena::new();
    let x = arena.create_string_lit("x");
    let s = scan_users(&mut arena);
    let root = call(&mut arena, "limit", &[x, s]);
    let mut t = AstToQueryTransformer::new(&arena, IdentityOptimizer);
    assert!(matches!(t.transform(root), Err(TransformError::ExpectedNumber)));

    let mut arena = Arena::new();
    let b = arena.create_bool(false);
    let root = call(&mut arena, "scan", &[b]);
    let mut t = AstToQueryTransformer::new(&arena, IdentityOptimizer);
    assert!(matches!(t.transform(root), Err(TransformError::InvalidArgument(n)) if n == "scan"));

    let mut arena = Arena::new();
    let one = arena.create_number("1");
    let tuple = arena.create_tuple(&[one]);
    let mut t = AstToQueryTransformer::new(&arena, IdentityOptimizer);
    assert!(matches!(t.transform(tuple), Err(TransformError::InvalidColumnName)));

    let mut arena = Arena::new();
    let one = arena.create_number("1");
    let block = arena.create_block(&[one]);
    let mut t = AstToQueryTransformer::new(&arena, IdentityOptimizer);
    assert!(matches!(t.transform(block), Err(TransformError::UnsupportedExpression(_))));
}

#[test]
fn non_literal_field_is_rejected() {
    let db = fresh_db(BufferPool::new());
    let mut compiler = PlanCompiler::new();
    let q = QueryExpr::Transaction {
        typ: akasha::query::TransactionType::Insert {
            table_name: "users".into(),
            value: Box::new(QueryExpr::Instance(vec![("name".into(), QueryExpr::Reference("v".into()))])),
            returning: None,
        },
        operations: vec![],
    };
    assert!(matches!(compiler.compile(&db.catalog, &q), Err(QueryError::SymbolNotFound(n)) if n == "v"));
}

#[test]
fn corrupt_catalog_rows_are_reported() {
    let rows = vec![Tuple(vec![Value::Text("no id".into())])];
    let r = TableCatalog::load(TableHeap::new(0), TableHeap::new(1), &rows, &vec![], &vec![1]);
    assert!(matches!(r, Err(DbInternalError::CorruptCatalog)));
    let rel = vec![Tuple(vec![Value::Int(2), Value::Text("t".into())])];
    let bad_col = vec![Tuple(vec![Value::Int(0)])];
    let r = TableCatalog::load(TableHeap::new(0), TableHeap::new(1), &rel, &bad_col, &vec![1]);
    assert!(matches!(r, Err(DbInternalError::CorruptCatalog)));
}

#[test]
fn compound_filter_runs_as_a_row_predicate() {
    let mut db = fresh_db(BufferPool::new());
    insert_person(&mut db, "Alice", 30);
    insert_person(&mut db, "Bob", 25);
    insert_person(&mut db, "Carol", 40);
    let mut arena = Arena::new();
    let s = scan_users(&mut arena);
    let r1 = arena.create_reference("r");
    let age1 = arena.create_field_access(r1, "age");
    let n26 = arena.create_number("26");
    let gt = arena.create_binary_op(TokenKind::GreaterThan, age1, n26);
    let r2 = arena.create_reference("r");
    let age2 = arena.create_field_access(r2, "age");
    let n35 = arena.create_number("35");
    let lt = arena.create_binary_op(TokenKind::LessThan, age2, n35);
    let both = arena.create_binary_op(TokenKind::And, gt, lt);
    let lambda = arena.create_lambda(&["r"], both);
    let root = call(&mut arena, "filter", &[lambda, s]);
    let rows = run(&mut db, &arena, root).unwrap();
    assert_eq!(rows.len(), 1);
    assert_eq!(text(&rows[0].0[0]), "Alice");
}

#[test]
fn in_lists_and_unsupported_conditions() {
    let db = fresh_db(BufferPool::new());
    let compiler = PlanCompiler::new();
    let p = PredicateExpr::In(
        QueryExpr::Column("age".into()),
        vec![QueryExpr::Literal(Value::Int(3)), QueryExpr::Literal(Value::Int(5))],
    );
    let rp = compiler.compile_predicate(&db.catalog, "users", &p).unwrap();
    assert!(rp.eval(&Tuple(vec![Value::Text("a".into()), Value::Int(5)])));
    assert!(!rp.eval(&Tuple(vec![Value::Text("a".into()), Value::Int(4)])));
    let empty = PredicateExpr::In(QueryExpr::Column("age".into()), vec![]);
    let rp = compiler.compile_predicate(&db.catalog, "users", &empty).unwrap();
    assert!(!rp.eval(&Tuple(vec![Value::Text("a".into()), Value::Int(5)])));
    let exists = PredicateExpr::Exists(Box::new(QueryExpr::Literal(Value::Int(1))));
    assert!(matches!(compiler.compile_predicate(&db.catalog, "users", &exists), Err(QueryError::ExpectedRow)));
    let arith = PredicateExpr::IsNull(QueryExpr::Reference("x".into()));
    assert!(matches!(compiler.compile_predicate(&db.catalog, "users", &arith), Err(QueryError::SymbolNotFound(n)) if n == "x"));
}

#[test]
fn signed_numerals() {
    for (text, value) in [("+5", 5), ("-7", -7), ("2147483647", i32::MAX), ("-2147483648", i32::MIN)] {
        let mut arena = Arena::new();
        let n = arena.create_number(text);
        let mut t = AstToQueryTransformer::new(&arena, IdentityOptimizer);
        assert!(matches!(t.transform(n), Ok(QueryExpr::Literal(Value::Int(v))) if v == value));
    }
    for text in ["", "-", "2147483648", "1.5"] {
        let mut arena = Arena::new();
        let n = arena.create_number(text);
        let mut t = AstToQueryTransformer::new(&arena, IdentityOptimizer);
        assert!(matches!(t.transform(n), Err(TransformError::InvalidNumber)));
    }
}

#[test]
fn interning_twice_changes_nothing() {
    let mut i = akasha::ast::Interner::new();
    let a = i.intern("x");
    let b = i.intern("y");
    assert_eq!(i.intern("x"), a);
    assert_eq!(i.ids.len(), 2);
    assert_eq!(i.resolve(b), "y");
}
