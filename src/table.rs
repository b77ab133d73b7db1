use vstd::prelude::*;
use crate::heap::TableHeap;
use crate::value::{
    data_type_id, text_eq, value_bytes, value_fits, value_wf, DataType, Tuple, Value, ValueV,
    MAX_VAR_LEN,
};

verus! {

/// The file of the relations system table.
pub const RELATIONS_TABLE_ID: u32 = 0;

/// The file of the columns system table.
pub const COLUMNS_TABLE_ID: u32 = 1;

pub const RELATIONS_TABLE_NAME: &'static str = "akasha.relations";

pub const COLUMNS_TABLE_NAME: &'static str = "akasha.columns";

#[verifier::external_type_specification]
#[verifier::external_body]
pub struct ExIoError(std::io::Error);

/// Storage-level failures.
#[derive(Debug)]
pub enum DbInternalError {
    IoError(std::io::Error),
    TableAlreadyExists(String),
    /// A system-table row does not have the shape its table gives it.
    CorruptCatalog,
}

/// One column of a table; `id` is its position in the table's tuples.
#[derive(Debug)]
pub struct ColumnInfo {
    pub id: u32,
    pub name: String,
    pub data_type: DataType,
    pub nullable: bool,
    pub default: Option<Value>,
}

/// A default that the columns table can store as one blob.
pub open spec fn default_ok(d: Option<Value>) -> bool {
    d matches Some(v) ==> value_wf(v@) && value_bytes(v@).len() <= MAX_VAR_LEN
}

/// A column whose row the columns table can store.
pub open spec fn column_ok(c: ColumnInfo) -> bool {
    column_v_ok(c@)
}

/// A column whose row the columns table can store, by its content.
pub open spec fn column_v_ok(c: ColumnV) -> bool {
    &&& (c.default matches Some(v) ==> value_wf(v) && value_bytes(v).len() <= MAX_VAR_LEN)
    &&& vstd::utf8::encode_utf8(c.name).len() <= MAX_VAR_LEN
}

/// Columns that can form a table: storable, distinctly named, and with
/// every id `0..n` present.
pub open spec fn columns_v_ok(cols: Seq<ColumnV>) -> bool {
    &&& cols.len() <= u32::MAX
    &&& forall|m: int| 0 <= m < cols.len() ==> column_v_ok(#[trigger] cols[m])
    &&& forall|m: int, l: int| 0 <= m < l < cols.len() ==> (#[trigger] cols[m]).name != (#[trigger] cols[l]).name
    &&& forall|k: int| 0 <= k < cols.len() ==> #[trigger] has_id(cols, k)
}

/// Some column of `cols` has id `k`.
pub open spec fn has_id(cols: Seq<ColumnV>, k: int) -> bool {
    exists|m: int| 0 <= m < cols.len() && (#[trigger] cols[m]).id == k
}

impl ColumnInfo {
    /// A copy of this column.
    pub fn copy(&self) -> (r: ColumnInfo)
        ensures
            r.id == self.id,
            r.name@ == self.name@,
            r.data_type == self.data_type,
            r.nullable == self.nullable,
            r.default.is_some() == self.default.is_some(),
            r.default matches Some(v) ==> v@ == self.default.unwrap()@,
    {
        ColumnInfo {
            id: self.id,
            name: self.name.clone(),
            data_type: self.data_type,
            nullable: self.nullable,
            default: match &self.default {
                Some(v) => Some(v.copy()),
                None => None,
            },
        }
    }
}

/// `c` is one of `columns`.
pub open spec fn one_of(columns: Seq<ColumnInfo>, c: ColumnInfo) -> bool {
    exists|m: int| 0 <= m < columns.len() && (#[trigger] columns[m])@ == c@
}

/// The columns of a table, column `i` at position `i`.
#[derive(Debug)]
pub struct TableInfo {
    pub columns: Vec<ColumnInfo>,
}

impl TableInfo {
    /// Column `i` has id `i`, names are distinct and defaults storable.
    pub open spec fn wf(&self) -> bool {
        &&& self.columns@.len() <= u32::MAX
        &&& forall|i: int| 0 <= i < self.columns@.len() ==> (#[trigger] self.columns@[i]).id == i
        &&& forall|i: int| 0 <= i < self.columns@.len() ==> column_ok(#[trigger] self.columns@[i])
        &&& forall|i: int, j: int|
            0 <= i < j < self.columns@.len() ==> (#[trigger] self.columns@[i]).name@ != (
            #[trigger] self.columns@[j]).name@
    }

    /// The id of the column named `name`.
    pub open spec fn column_index_spec(&self, name: Seq<char>) -> Option<usize> {
        if exists|i: int| 0 <= i < self.columns@.len() && (#[trigger] self.columns@[i]).name@ == name {
            Some(
                (choose|i: int| 0 <= i < self.columns@.len() && (#[trigger] self.columns@[i]).name@ == name) as usize,
            )
        } else {
            None
        }
    }

    /// Arranges columns by id. `None` when the ids are not exactly
    /// `0..n`, two columns share a name, or a default cannot be stored.
    pub fn from_columns(columns: Vec<ColumnInfo>) -> (r: Option<TableInfo>)
        ensures
            r.is_some() == columns_v_ok(columns_view(columns@)),
            r matches Some(t) ==> t.wf() && t.columns@.len() == columns@.len() && forall|k: int|
                0 <= k < t.columns@.len() ==> one_of(columns@, #[trigger] t.columns@[k]),
    {
        let ghost cv = columns_view(columns@);
        let n = columns.len();
        if n > u32::MAX as usize {
            return None;
        }
        let mut m: usize = 0;
        while m < n
            invariant
                n == columns@.len(),
                cv == columns_view(columns@),
                m <= n,
                forall|a: int| 0 <= a < m ==> column_v_ok(#[trigger] cv[a]),
                forall|a: int, l: int| 0 <= a < l < n && a < m ==> (#[trigger] cv[a]).name != (#[trigger] cv[l]).name,
            decreases n - m,
        {
            if !column_storable(&columns[m]) {
                assert(!column_v_ok(cv[m as int]));
                return None;
            }
            let mut l: usize = m + 1;
            while l < n
                invariant
                    n == columns@.len(),
                    cv == columns_view(columns@),
                    m < l <= n,
                    forall|b: int| m < b < l ==> cv[m as int].name != (#[trigger] cv[b]).name,
                decreases n - l,
            {
                if text_eq(columns[m].name.as_str(), columns[l].name.as_str()) {
                    assert(cv[m as int].name == cv[l as int].name);
                    return None;
                }
                l = l + 1;
            }
            m = m + 1;
        }
        let mut out: Vec<ColumnInfo> = Vec::new();
        let ghost mut origin: Seq<int> = Seq::empty();
        let mut k: usize = 0;
        while k < n
            invariant
                n == columns@.len(),
                n <= u32::MAX,
                cv == columns_view(columns@),
                k <= n,
                forall|a: int| 0 <= a < n ==> column_v_ok(#[trigger] cv[a]),
                forall|a: int, l: int| 0 <= a < l < n ==> (#[trigger] cv[a]).name != (#[trigger] cv[l]).name,
                out@.len() == k,
                origin.len() == k,
                forall|a: int| 0 <= a < k ==> 0 <= #[trigger] origin[a] < n && cv[origin[a]] == out@[a]@ && out@[a].id == a,
            decreases n - k,
        {
            let mut j: usize = 0;
            let mut found: Option<usize> = None;
            while j < n && found.is_none()
                invariant
                    n == columns@.len(),
                    cv == columns_view(columns@),
                    j <= n,
                    found.is_none() ==> forall|b: int| 0 <= b < j ==> (#[trigger] cv[b]).id != k,
                    found matches Some(f) ==> f < n && cv[f as int].id == k,
                decreases n - j + (if found.is_none() { 1int } else { 0int }),
            {
                if columns[j].id as usize == k {
                    found = Some(j);
                } else {
                    j = j + 1;
                }
            }
            match found {
                None => {
                    assert(!has_id(cv, k as int));
                    return None;
                },
                Some(f) => {
                    let c = columns[f].copy();
                    assert(c@ == cv[f as int]);
                    out.push(c);
                    proof {
                        origin = origin.push(f as int);
                    }
                },
            }
            k = k + 1;
        }
        let t = TableInfo { columns: out };
        proof {
            assert forall|a: int| 0 <= a < t.columns@.len() implies one_of(columns@, #[trigger] t.columns@[a]) by {
                assert(columns@[origin[a]]@ == cv[origin[a]]);
            }
            assert forall|a: int| 0 <= a < t.columns@.len() implies (#[trigger] t.columns@[a]).id == a by {
                assert(0 <= origin[a] < n);
            }
            assert forall|a: int| 0 <= a < t.columns@.len() implies column_ok(#[trigger] t.columns@[a]) by {
                assert(cv[origin[a]] == t.columns@[a]@);
            }
            assert forall|a: int, l: int| 0 <= a < l < t.columns@.len() implies (#[trigger] t.columns@[a]).name@ != (
                #[trigger] t.columns@[l]).name@ by {
                assert(origin[a] != origin[l]);
                if origin[a] < origin[l] {
                    assert(cv[origin[a]].name != cv[origin[l]].name);
                } else {
                    assert(cv[origin[l]].name != cv[origin[a]].name);
                }
            }
            assert forall|kk: int| 0 <= kk < cv.len() implies #[trigger] has_id(cv, kk) by {
                assert(cv[origin[kk]].id == kk);
            }
        }
        Some(t)
    }

    /// The id of the column named `name`, if there is one.
    pub fn get_column_index(&self, name: &str) -> (r: Option<usize>)
        requires
            self.wf(),
        ensures
            r == self.column_index_spec(name@),
            r matches Some(i) ==> i < self.columns@.len() && self.columns@[i as int].name@ == name@,
    {
        let mut i: usize = 0;
        while i < self.columns.len()
            invariant
                self.wf(),
                i <= self.columns@.len(),
                forall|k: int| 0 <= k < i ==> (#[trigger] self.columns@[k]).name@ != name@,
            decreases self.columns@.len() - i,
        {
            if text_eq(self.columns[i].name.as_str(), name) {
                proof {
                    let ii = i as int;
                    assert(0 <= ii < self.columns@.len() && self.columns@[ii].name@ == name@);
                    let w = choose|k: int| 0 <= k < self.columns@.len() && (#[trigger] self.columns@[k]).name@ == name@;
                    if w < ii {
                        assert(self.columns@[w].name@ != name@);
                    } else if w > ii {
                        assert(self.columns@[ii].name@ != self.columns@[w].name@);
                    }
                    assert(w == ii);
                    assert(self.columns@[ii].id == ii);
                }
                return Some(self.columns[i].id as usize);
            }
            i = i + 1;
        }
        None
    }
}

/// Whether a column's row fits the columns table.
fn column_storable(c: &ColumnInfo) -> (r: bool)
    ensures
        r == column_ok(*c),
{
    if c.name.as_str().as_bytes().len() > MAX_VAR_LEN {
        return false;
    }
    match &c.default {
        None => true,
        Some(v) => {
            if !crate::value::value_is_wf(v) {
                return false;
            }
            v.get_size() <= MAX_VAR_LEN
        },
    }
}

/// The content of a [`ColumnInfo`].
pub struct ColumnV {
    pub id: u32,
    pub name: Seq<char>,
    pub data_type: DataType,
    pub nullable: bool,
    pub default: Option<ValueV>,
}

impl View for ColumnInfo {
    type V = ColumnV;

    open spec fn view(&self) -> ColumnV {
        ColumnV {
            id: self.id,
            name: self.name@,
            data_type: self.data_type,
            nullable: self.nullable,
            default: match self.default {
                Some(v) => Some(v@),
                None => None,
            },
        }
    }
}

pub open spec fn data_type_from(id: u8) -> DataType {
    if id == 0x00 {
        DataType::Null
    } else if id == 0x01 {
        DataType::Int
    } else if id == 0x02 {
        DataType::Long
    } else if id == 0x03 {
        DataType::Float
    } else if id == 0x04 {
        DataType::Double
    } else if id == 0x05 {
        DataType::Text
    } else if id == 0x06 {
        DataType::Boolean
    } else if id == 0x07 {
        DataType::Date
    } else if id == 0x08 {
        DataType::DateTime
    } else if id == 0x09 {
        DataType::Blob
    } else {
        DataType::Byte
    }
}

/// The relations-table row of a table: its file id and name.
pub open spec fn relation_row_spec(file_id: u32, name: Seq<char>) -> Seq<ValueV> {
    seq![ValueV::Int(file_id as i32), ValueV::Text(name)]
}

/// The columns-table row of a column of table `table_id`: id, table id,
/// name, type id, nullability, and the encoded default when there is one.
pub open spec fn column_row_spec(table_id: u32, c: ColumnV) -> Seq<ValueV> {
    seq![
        ValueV::Int(c.id as i32),
        ValueV::Int(table_id as i32),
        ValueV::Text(c.name),
        ValueV::Byte(data_type_id(c.data_type)),
        ValueV::Boolean(c.nullable),
    ] + match c.default {
        Some(v) => seq![ValueV::Blob(value_bytes(v))],
        None => Seq::empty(),
    }
}

/// What a relations-table row says: file id and table name.
pub open spec fn parse_relation_spec(t: Seq<ValueV>) -> Option<(u32, Seq<char>)> {
    if t.len() == 2 {
        match (t[0], t[1]) {
            (ValueV::Int(id), ValueV::Text(name)) => Some((id as u32, name)),
            _ => None,
        }
    } else {
        None
    }
}

/// What a columns-table row says: the table id and the column.
pub open spec fn parse_column_spec(t: Seq<ValueV>) -> Option<(u32, ColumnV)> {
    if t.len() == 5 || t.len() == 6 {
        match (t[0], t[1], t[2], t[3], t[4]) {
            (
                ValueV::Int(id),
                ValueV::Int(tid),
                ValueV::Text(name),
                ValueV::Byte(ty),
                ValueV::Boolean(nullable),
            ) => if ty > 0x0A {
                None
            } else if t.len() == 5 {
                Some(
                    (
                        tid as u32,
                        ColumnV {
                            id: id as u32,
                            name,
                            data_type: data_type_from(ty),
                            nullable,
                            default: None,
                        },
                    ),
                )
            } else {
                match t[5] {
                    ValueV::Blob(b) => match crate::value::decode_value_spec(b) {
                        Some((v, n)) => if n == b.len() {
                            Some(
                                (
                                    tid as u32,
                                    ColumnV {
                                        id: id as u32,
                                        name,
                                        data_type: data_type_from(ty),
                                        nullable,
                                        default: Some(v),
                                    },
                                ),
                            )
                        } else {
                            None
                        },
                        None => None,
                    },
                    _ => None,
                }
            },
            _ => None,
        }
    } else {
        None
    }
}

/// The relations-table row of a table.
pub fn relation_row(file_id: u32, name: &String) -> (r: Tuple)
    ensures
        r@ == relation_row_spec(file_id, name@),
{
    let r = Tuple(vec![Value::Int(file_id as i32), Value::Text(name.clone())]);
    assert(r@ =~= relation_row_spec(file_id, name@));
    r
}

/// The columns-table row of a column of table `table_id`.
pub fn column_row(table_id: u32, c: &ColumnInfo) -> (r: Tuple)
    requires
        default_ok(c.default),
    ensures
        r@ == column_row_spec(table_id, c@),
        column_ok(*c) ==> crate::value::tuple_fits(r@),
{
    let mut values: Vec<Value> = vec![
        Value::Int(c.id as i32),
        Value::Int(table_id as i32),
        Value::Text(c.name.clone()),
        Value::Byte(c.data_type.id()),
        Value::Boolean(c.nullable),
    ];
    match &c.default {
        Some(v) => {
            let mut bytes: Vec<u8> = Vec::new();
            v.to_bytes_into(&mut bytes);
            assert(bytes@ =~= value_bytes(v@));
            values.push(Value::Blob(bytes));
        },
        None => {},
    }
    let r = Tuple(values);
    assert(r@ =~= column_row_spec(table_id, c@));
    r
}

/// Reads a relations-table row.
pub fn parse_relation_row(t: &Tuple) -> (r: Option<(u32, String)>)
    ensures
        match parse_relation_spec(t@) {
            Some((id, name)) => r matches Some((i, n)) && i == id && n@ == name,
            None => r.is_none(),
        },
{
    if t.0.len() != 2 {
        return None;
    }
    match (&t.0[0], &t.0[1]) {
        (Value::Int(id), Value::Text(name)) => Some((*id as u32, name.clone())),
        _ => None,
    }
}

/// Reads a columns-table row.
pub fn parse_column_row(t: &Tuple) -> (r: Option<(u32, ColumnInfo)>)
    ensures
        match parse_column_spec(t@) {
            Some((tid, c)) => r matches Some((i, col)) && i == tid && col@ == c,
            None => r.is_none(),
        },
{
    let n = t.0.len();
    if n != 5 && n != 6 {
        return None;
    }
    match (&t.0[0], &t.0[1], &t.0[2], &t.0[3], &t.0[4]) {
        (Value::Int(id), Value::Int(tid), Value::Text(name), Value::Byte(ty), Value::Boolean(nullable)) => {
            let data_type = match DataType::from_id(*ty) {
                Some(d) => d,
                None => {
                    return None;
                },
            };
            assert(data_type == data_type_from(*ty));
            let default = if n == 6 {
                match &t.0[5] {
                    Value::Blob(b) => match Value::read_from_bytes(b, 0, b.len()) {
                        Some((v, used)) => {
                            assert(b@.subrange(0, b@.len() as int) =~= b@);
                            if used != b.len() {
                                return None;
                            }
                            Some(v)
                        },
                        None => {
                            assert(b@.subrange(0, b@.len() as int) =~= b@);
                            return None;
                        },
                    },
                    _ => {
                        return None;
                    },
                }
            } else {
                None
            };
            Some(
                (
                    *tid as u32,
                    ColumnInfo {
                        id: *id as u32,
                        name: name.clone(),
                        data_type,
                        nullable: *nullable,
                        default,
                    },
                ),
            )
        },
        _ => None,
    }
}

/// A column row read back gives the column it was made from.
pub proof fn lemma_column_row_round_trip(table_id: u32, c: ColumnV)
    requires
        c.default matches Some(v) ==> crate::value::value_wf(v),
        c.id <= i32::MAX,
    ensures
        parse_column_spec(column_row_spec(table_id, c)) == Some((table_id, c)),
{
    let t = column_row_spec(table_id, c);
    assert((c.id as i32) as u32 == c.id);
    assert((table_id as i32) as u32 == table_id) by (bit_vector);
    assert(data_type_from(data_type_id(c.data_type)) == c.data_type);
    match c.default {
        Some(v) => {
            crate::value::lemma_value_round_trip(v, Seq::empty());
            assert(value_bytes(v) + Seq::<u8>::empty() =~= value_bytes(v));
        },
        None => {},
    }
}

/// A relation row read back gives the table it was made from.
pub proof fn lemma_relation_row_round_trip(file_id: u32, name: Seq<char>)
    ensures
        parse_relation_spec(relation_row_spec(file_id, name)) == Some((file_id, name)),
{
    assert((file_id as i32) as u32 == file_id) by (bit_vector);
}

/// Some row of `rows` records column `c` of table `file_id`.
pub open spec fn column_recorded(rows: Seq<Tuple>, file_id: u32, c: ColumnV) -> bool {
    exists|j: int| 0 <= j < rows.len() && parse_column_spec((#[trigger] rows[j])@) == Some((file_id, c))
}

/// Every column of table `t` is recorded in `rows`.
pub open spec fn columns_recorded(rows: Seq<Tuple>, t: PhysicalTable) -> bool {
    forall|k: int| 0 <= k < t.info.columns@.len() ==> column_recorded(rows, t.file_id, (#[trigger] t.info.columns@[k])@)
}

/// The columns that rows record for table `id`, in row order.
pub open spec fn cols_for(rows: Seq<Tuple>, id: u32) -> Seq<ColumnV>
    decreases rows.len(),
{
    if rows.len() == 0 {
        Seq::empty()
    } else {
        match parse_column_spec(rows.last()@) {
            Some((tid, c)) => if tid == id {
                cols_for(rows.drop_last(), id).push(c)
            } else {
                cols_for(rows.drop_last(), id)
            },
            None => cols_for(rows.drop_last(), id),
        }
    }
}

/// System-table rows from which a catalog loads: every row parses, table
/// names are distinct, and each table's columns can form a table.
pub open spec fn load_ok(relation_rows: Seq<Tuple>, column_rows: Seq<Tuple>) -> bool {
    &&& forall|j: int| 0 <= j < column_rows.len() ==> (#[trigger] parse_column_spec(column_rows[j]@)).is_some()
    &&& forall|i: int| 0 <= i < relation_rows.len() ==> (#[trigger] parse_relation_spec(relation_rows[i]@)).is_some()
    &&& forall|a: int, b: int|
        0 <= a < b < relation_rows.len() ==> parse_relation_spec(#[trigger] relation_rows[a]@).unwrap().1 != parse_relation_spec(
            #[trigger] relation_rows[b]@,
        ).unwrap().1
    &&& forall|i: int|
        0 <= i < relation_rows.len() ==> columns_v_ok(cols_for(column_rows, parse_relation_spec(#[trigger] relation_rows[i]@).unwrap().0))
}

/// The columns of table `t` are exactly as many as `rows` record for its
/// file, each one of them.
pub open spec fn columns_loaded(rows: Seq<Tuple>, t: PhysicalTable) -> bool {
    &&& t.info.columns@.len() == cols_for(rows, t.file_id).len()
    &&& forall|k: int| 0 <= k < t.info.columns@.len() ==> #[trigger] col_in(rows, t.file_id, t.info.columns@[k]@)
}

/// Column `c` is among those `rows` record for table `id`.
pub open spec fn col_in(rows: Seq<Tuple>, id: u32, c: ColumnV) -> bool {
    exists|m: int| 0 <= m < cols_for(rows, id).len() && #[trigger] cols_for(rows, id)[m] == c
}

/// A table of the catalog: its file, name, heap and columns.
#[derive(Debug)]
pub struct PhysicalTable {
    pub file_id: u32,
    pub name: String,
    pub heap: TableHeap,
    pub info: TableInfo,
}

/// The system-table rows that record a new table.
#[derive(Debug)]
pub struct NewTableRows {
    pub relation_row: Tuple,
    pub column_rows: Vec<Tuple>,
}

/// The tables of a database, with the heaps of the two system tables.
pub struct TableCatalog {
    pub relations: TableHeap,
    pub columns: TableHeap,
    pub tables: Vec<PhysicalTable>,
}

pub open spec fn rows_record(rows: NewTableRows, file_id: u32, name: Seq<char>, info: TableInfo) -> bool {
    &&& rows.relation_row@ == relation_row_spec(file_id, name)
    &&& rows.column_rows@.len() == info.columns@.len()
    &&& forall|i: int|
        0 <= i < info.columns@.len() ==> (#[trigger] rows.column_rows@[i])@ == column_row_spec(
            file_id,
            info.columns@[i]@,
        )
    &&& crate::value::tuple_fits(rows.relation_row@)
    &&& forall|i: int| 0 <= i < rows.column_rows@.len() ==> crate::value::tuple_fits((#[trigger] rows.column_rows@[i])@)
}

/// The rows recording a table of `file_id` named `name`.
pub fn table_rows(file_id: u32, name: &String, info: &TableInfo) -> (r: NewTableRows)
    requires
        info.wf(),
        vstd::utf8::encode_utf8(name@).len() <= MAX_VAR_LEN,
    ensures
        rows_record(r, file_id, name@, *info),
{
    let relation_row = relation_row(file_id, name);
    let mut column_rows: Vec<Tuple> = Vec::new();
    let mut i: usize = 0;
    while i < info.columns.len()
        invariant
            info.wf(),
            i <= info.columns@.len(),
            column_rows@.len() == i,
            forall|k: int|
                0 <= k < i ==> (#[trigger] column_rows@[k])@ == column_row_spec(file_id, info.columns@[k]@)
                    && crate::value::tuple_fits(column_rows@[k]@),
        decreases info.columns@.len() - i,
    {
        column_rows.push(column_row(file_id, &info.columns[i]));
        i = i + 1;
    }
    proof {
        let t = relation_row@;
        assert forall|k: int| 0 <= k < t.len() implies crate::value::value_fits(#[trigger] t[k]) by {}
    }
    NewTableRows { relation_row, column_rows }
}

/// A system column: not nullable unless said, and without a default.
pub open spec fn sys_col(id: u32, name: Seq<char>, data_type: DataType, nullable: bool) -> ColumnV {
    ColumnV { id, name, data_type, nullable, default: None }
}

/// The columns of the relations table.
pub open spec fn relations_columns_spec() -> Seq<ColumnV> {
    seq![sys_col(0, "id"@, DataType::Int, false), sys_col(1, "name"@, DataType::Text, false)]
}

/// The columns of the columns table.
pub open spec fn columns_columns_spec() -> Seq<ColumnV> {
    seq![
        sys_col(0, "id"@, DataType::Int, false),
        sys_col(1, "table_id"@, DataType::Int, false),
        sys_col(2, "name"@, DataType::Text, false),
        sys_col(3, "type"@, DataType::Byte, false),
        sys_col(4, "nullable"@, DataType::Boolean, false),
        sys_col(5, "default"@, DataType::Blob, true),
    ]
}

pub open spec fn columns_view(cols: Seq<ColumnInfo>) -> Seq<ColumnV> {
    cols.map_values(|c: ColumnInfo| c@)
}

fn column(id: u32, name: &str, data_type: DataType, nullable: bool) -> (r: ColumnInfo)
    ensures
        r@ == sys_col(id, name@, data_type, nullable),
{
    ColumnInfo { id, name: name.to_owned(), data_type, nullable, default: None }
}

/// The columns of the relations table: `id` and `name`.
pub fn relations_table_columns() -> (r: TableInfo)
    ensures
        columns_view(r.columns@) == relations_columns_spec(),
{
    let mut columns: Vec<ColumnInfo> = Vec::new();
    columns.push(column(0, "id", DataType::Int, false));
    columns.push(column(1, "name", DataType::Text, false));
    assert(columns_view(columns@) =~= relations_columns_spec());
    TableInfo { columns }
}

/// The columns of the columns table: `id`, `table_id`, `name`, `type`,
/// `nullable` and the optional encoded `default`.
pub fn columns_table_columns() -> (r: TableInfo)
    ensures
        columns_view(r.columns@) == columns_columns_spec(),
{
    let mut columns: Vec<ColumnInfo> = Vec::new();
    columns.push(column(0, "id", DataType::Int, false));
    columns.push(column(1, "table_id", DataType::Int, false));
    columns.push(column(2, "name", DataType::Text, false));
    columns.push(column(3, "type", DataType::Byte, false));
    columns.push(column(4, "nullable", DataType::Boolean, false));
    columns.push(column(5, "default", DataType::Blob, true));
    assert(columns_view(columns@) =~= columns_columns_spec());
    TableInfo { columns }
}

/// Appends the columns-table rows of `cols`, columns of table `table_id`.
fn push_column_rows(out: &mut Vec<Tuple>, table_id: u32, cols: &Vec<ColumnInfo>)
    requires
        forall|k: int| 0 <= k < cols@.len() ==> (#[trigger] cols@[k]).default.is_none(),
    ensures
        final(out)@.len() == old(out)@.len() + cols@.len(),
        forall|k: int| 0 <= k < old(out)@.len() ==> #[trigger] final(out)@[k] == old(out)@[k],
        forall|k: int|
            0 <= k < cols@.len() ==> (#[trigger] final(out)@[old(out)@.len() + k])@ == column_row_spec(table_id, cols@[k]@),
{
    let mut i: usize = 0;
    while i < cols.len()
        invariant
            i <= cols@.len(),
            forall|k: int| 0 <= k < cols@.len() ==> (#[trigger] cols@[k]).default.is_none(),
            out@.len() == old(out)@.len() + i,
            forall|k: int| 0 <= k < old(out)@.len() ==> #[trigger] out@[k] == old(out)@[k],
            forall|k: int|
                0 <= k < i ==> (#[trigger] out@[old(out)@.len() + k])@ == column_row_spec(table_id, cols@[k]@),
        decreases cols@.len() - i,
    {
        let row = column_row(table_id, &cols[i]);
        out.push(row);
        i = i + 1;
    }
}

impl TableCatalog {
    /// Table names are distinct, every table's columns are well formed, and
    /// each heap belongs to its table's file.
    pub open spec fn wf(&self) -> bool {
        &&& self.tables@.len() < u32::MAX
        &&& forall|i: int| 0 <= i < self.tables@.len() ==> (#[trigger] self.tables@[i]).info.wf()
        &&& forall|i: int| 0 <= i < self.tables@.len() ==> (#[trigger] self.tables@[i]).heap.file_id == self.tables@[i].file_id
        &&& forall|i: int, j: int|
            0 <= i < j < self.tables@.len() ==> (#[trigger] self.tables@[i]).name@ != (
            #[trigger] self.tables@[j]).name@
    }

    pub open spec fn has_table(&self, name: Seq<char>) -> bool {
        exists|i: int| 0 <= i < self.tables@.len() && (#[trigger] self.tables@[i]).name@ == name
    }

    /// The system-table rows that describe the two system tables
    /// themselves: the relations rows `(0, "akasha.relations")` and
    /// `(1, "akasha.columns")`, then one columns row per system column.
    pub fn bootstrap_rows() -> (r: (Vec<Tuple>, Vec<Tuple>))
        ensures
            r.0@.len() == 2,
            r.0@[0]@ == relation_row_spec(RELATIONS_TABLE_ID, RELATIONS_TABLE_NAME@),
            r.0@[1]@ == relation_row_spec(COLUMNS_TABLE_ID, COLUMNS_TABLE_NAME@),
            r.1@.len() == 8,
            forall|k: int| 0 <= k < 2 ==> (#[trigger] r.1@[k])@ == column_row_spec(RELATIONS_TABLE_ID, relations_columns_spec()[k]),
            forall|k: int| 2 <= k < 8 ==> (#[trigger] r.1@[k])@ == column_row_spec(COLUMNS_TABLE_ID, columns_columns_spec()[k - 2]),
    {
        let mut relation_rows: Vec<Tuple> = Vec::new();
        relation_rows.push(relation_row(RELATIONS_TABLE_ID, &RELATIONS_TABLE_NAME.to_owned()));
        relation_rows.push(relation_row(COLUMNS_TABLE_ID, &COLUMNS_TABLE_NAME.to_owned()));
        let rel = relations_table_columns();
        let col = columns_table_columns();
        proof {
            assert(columns_view(rel.columns@).len() == 2);
            assert(columns_view(col.columns@).len() == 6);
            assert forall|k: int| 0 <= k < rel.columns@.len() implies (#[trigger] rel.columns@[k]).default.is_none() by {
                assert(columns_view(rel.columns@)[k] == rel.columns@[k]@);
                assert(relations_columns_spec()[k].default.is_none()) by {
                    if k == 0 {} else {}
                }
            }
            assert forall|k: int| 0 <= k < col.columns@.len() implies (#[trigger] col.columns@[k]).default.is_none() by {
                assert(columns_view(col.columns@)[k] == col.columns@[k]@);
                assert(columns_columns_spec()[k].default.is_none()) by {
                    if k == 0 {} else if k == 1 {} else if k == 2 {} else if k == 3 {} else if k == 4 {} else {}
                }
            }
        }
        let mut column_rows: Vec<Tuple> = Vec::new();
        push_column_rows(&mut column_rows, RELATIONS_TABLE_ID, &rel.columns);
        let ghost mid = column_rows@;
        push_column_rows(&mut column_rows, COLUMNS_TABLE_ID, &col.columns);
        proof {
            assert forall|k: int| 0 <= k < 2 implies (#[trigger] column_rows@[k])@ == column_row_spec(RELATIONS_TABLE_ID, relations_columns_spec()[k]) by {
                assert(column_rows@[k] == mid[k]);
                assert(mid[0 + k]@ == column_row_spec(RELATIONS_TABLE_ID, rel.columns@[k]@));
                assert(columns_view(rel.columns@)[k] == rel.columns@[k]@);
            }
            assert forall|k: int| 2 <= k < 8 implies (#[trigger] column_rows@[k])@ == column_row_spec(COLUMNS_TABLE_ID, columns_columns_spec()[k - 2]) by {
                assert(column_rows@[2 + (k - 2)] == column_rows@[k]);
                assert(columns_view(col.columns@)[k - 2] == col.columns@[k - 2]@);
            }
        }
        (relation_rows, column_rows)
    }

    /// A catalog with no tables yet.
    pub fn new(relations: TableHeap, columns: TableHeap) -> (r: TableCatalog)
        ensures
            r.wf(),
            r.tables@.len() == 0,
    {
        TableCatalog { relations, columns, tables: Vec::new() }
    }

    /// The position of the table named `name`.
    pub fn find_table(&self, name: &str) -> (r: Option<usize>)
        requires
            self.wf(),
        ensures
            r.is_some() == self.has_table(name@),
            r matches Some(i) ==> i < self.tables@.len() && self.tables@[i as int].name@ == name@,
    {
        let mut i: usize = 0;
        while i < self.tables.len()
            invariant
                i <= self.tables@.len(),
                forall|k: int| 0 <= k < i ==> (#[trigger] self.tables@[k]).name@ != name@,
            decreases self.tables@.len() - i,
        {
            if text_eq(self.tables[i].name.as_str(), name) {
                return Some(i);
            }
            i = i + 1;
        }
        None
    }

    /// The table named `name`.
    pub fn get_table(&self, name: &str) -> (r: Option<&PhysicalTable>)
        requires
            self.wf(),
        ensures
            r.is_some() == self.has_table(name@),
            r matches Some(t) ==> t.name@ == name@ && t.info.wf(),
    {
        match self.find_table(name) {
            Some(i) => Some(&self.tables[i]),
            None => None,
        }
    }

    /// Registers a table in the next free file and gives the system-table
    /// rows that record it. Fails when the name is taken.
    pub fn create_table(&mut self, name: String, info: TableInfo) -> (r: Result<NewTableRows, DbInternalError>)
        requires
            old(self).wf(),
            info.wf(),
            old(self).tables@.len() + 1 < u32::MAX,
            vstd::utf8::encode_utf8(name@).len() <= MAX_VAR_LEN,
        ensures
            final(self).wf(),
            final(self).relations == old(self).relations,
            final(self).columns == old(self).columns,
            old(self).has_table(name@) <==> r.is_err(),
            r matches Err(e) ==> (e matches DbInternalError::TableAlreadyExists(n) && n@ == name@),
            r.is_err() ==> final(self).tables@ == old(self).tables@,
            r matches Ok(rows) ==> {
                let fid = old(self).tables@.len() as u32;
                let t = final(self).tables@.last();
                &&& final(self).tables@.len() == old(self).tables@.len() + 1
                &&& final(self).tables@.drop_last() == old(self).tables@
                &&& t.file_id == fid
                &&& t.name@ == name@
                &&& t.heap.file_id == fid
                &&& t.heap.page_ids@ == seq![0u32]
                &&& t.info == info
                &&& rows_record(rows, fid, name@, info)
            },
    {
        if self.find_table(name.as_str()).is_some() {
            return Err(DbInternalError::TableAlreadyExists(name));
        }
        let file_id = self.tables.len() as u32;
        let rows = table_rows(file_id, &name, &info);
        let heap = TableHeap::new(file_id);
        let ghost before = self.tables@;
        self.tables.push(PhysicalTable { file_id, name, heap, info });
        proof {
            assert(self.tables@.drop_last() =~= before);
            assert forall|i: int, j: int| 0 <= i < j < self.tables@.len() implies (#[trigger] self.tables@[i]).name@ != (
                #[trigger] self.tables@[j]).name@ by {
                if j == before.len() {
                    assert(before[i].name@ != self.tables@[j].name@);
                }
            }
        }
        Ok(rows)
    }

    /// Rebuilds the catalog from the rows of the two system tables;
    /// `page_counts[i]` is the number of pages of the file of the table in
    /// `relation_rows[i]`. Fails when a row does not parse, two tables share
    /// a name, or a table's columns are not numbered `0..n`.
    pub fn load(
        relations: TableHeap,
        columns: TableHeap,
        relation_rows: &Vec<Tuple>,
        column_rows: &Vec<Tuple>,
        page_counts: &Vec<u32>,
    ) -> (r: Result<TableCatalog, DbInternalError>)
        requires
            page_counts@.len() == relation_rows@.len(),
            relation_rows@.len() + 1 < u32::MAX,
        ensures
            r matches Ok(c) ==> {
                &&& c.wf()
                &&& c.tables@.len() == relation_rows@.len()
                &&& forall|i: int|
                    0 <= i < relation_rows@.len() ==> parse_relation_spec(
                        #[trigger] relation_rows@[i]@,
                    ) == Some(((c.tables@[i]).file_id, c.tables@[i].name@)) && c.tables@[i].heap.page_ids@.len()
                        == page_counts@[i] && columns_recorded(column_rows@, c.tables@[i]) && columns_loaded(column_rows@, c.tables@[i])
            },
            r matches Err(e) ==> e matches DbInternalError::CorruptCatalog,
            r.is_ok() == load_ok(relation_rows@, column_rows@),
    {
        let mut parsed: Vec<(u32, ColumnInfo)> = Vec::new();
        let mut j: usize = 0;
        while j < column_rows.len()
            invariant
                j <= column_rows@.len(),
                parsed@.len() == j,
                forall|k: int| 0 <= k < j ==> parse_column_spec(#[trigger] column_rows@[k]@) == Some((parsed@[k].0, parsed@[k].1@)),
            decreases column_rows@.len() - j,
        {
            match parse_column_row(&column_rows[j]) {
                Some(p) => parsed.push(p),
                None => {
                    assert(parse_column_spec(column_rows@[j as int]@).is_none());
                    return Err(DbInternalError::CorruptCatalog);
                },
            }
            j = j + 1;
        }
        let mut catalog = TableCatalog::new(relations, columns);
        let mut i: usize = 0;
        while i < relation_rows.len()
            invariant
                page_counts@.len() == relation_rows@.len(),
                relation_rows@.len() + 1 < u32::MAX,
                i <= relation_rows@.len(),
                catalog.wf(),
                catalog.tables@.len() == i,
                parsed@.len() == column_rows@.len(),
                forall|k: int| 0 <= k < column_rows@.len() ==> parse_column_spec(#[trigger] column_rows@[k]@) == Some((parsed@[k].0, parsed@[k].1@)),
                forall|k: int|
                    0 <= k < i ==> parse_relation_spec(#[trigger] relation_rows@[k]@) == Some(
                        ((catalog.tables@[k]).file_id, catalog.tables@[k].name@),
                    ) && catalog.tables@[k].heap.page_ids@.len() == page_counts@[k] && columns_recorded(column_rows@, catalog.tables@[k])
                        && columns_loaded(column_rows@, catalog.tables@[k])
                        && columns_v_ok(cols_for(column_rows@, catalog.tables@[k].file_id)),
            decreases relation_rows@.len() - i,
        {
            let (id, name) = match parse_relation_row(&relation_rows[i]) {
                Some(p) => p,
                None => {
                    assert(parse_relation_spec(relation_rows@[i as int]@).is_none());
                    return Err(DbInternalError::CorruptCatalog);
                },
            };
            match catalog.find_table(name.as_str()) {
                Some(k) => {
                    assert(parse_relation_spec(relation_rows@[k as int]@).unwrap().1 == parse_relation_spec(relation_rows@[i as int]@).unwrap().1);
                    assert(!load_ok(relation_rows@, column_rows@));
                    return Err(DbInternalError::CorruptCatalog);
                },
                None => {},
            }
            let mut cols: Vec<ColumnInfo> = Vec::new();
            let mut j: usize = 0;
            while j < parsed.len()
                invariant
                    j <= parsed@.len(),
                    parsed@.len() == column_rows@.len(),
                    forall|k: int| 0 <= k < column_rows@.len() ==> parse_column_spec(#[trigger] column_rows@[k]@) == Some((parsed@[k].0, parsed@[k].1@)),
                    forall|m: int| 0 <= m < cols@.len() ==> column_recorded(column_rows@, id, (#[trigger] cols@[m])@),
                    columns_view(cols@) == cols_for(column_rows@.take(j as int), id),
                decreases parsed@.len() - j,
            {
                assert(column_rows@.take(j + 1).drop_last() =~= column_rows@.take(j as int));
                assert(column_rows@.take(j + 1).last() == column_rows@[j as int]);
                let ghost before = cols@;
                if parsed[j].0 == id {
                    let c = parsed[j].1.copy();
                    proof {
                        assert(parse_column_spec(column_rows@[j as int]@) == Some((id, c@)));
                    }
                    cols.push(c);
                    assert(columns_view(cols@) =~= columns_view(before).push(c@));
                }
                j = j + 1;
            }
            assert(column_rows@.take(j as int) =~= column_rows@);
            let info = match TableInfo::from_columns(cols) {
                Some(info) => info,
                None => {
                    assert(!columns_v_ok(cols_for(column_rows@, parse_relation_spec(relation_rows@[i as int]@).unwrap().0)));
                    return Err(DbInternalError::CorruptCatalog);
                },
            };
            proof {
                assert forall|k: int| 0 <= k < info.columns@.len() implies column_recorded(column_rows@, id, (#[trigger] info.columns@[k])@) by {
                    assert(one_of(cols@, info.columns@[k]));
                    let m = choose|m: int| 0 <= m < cols@.len() && (#[trigger] cols@[m])@ == info.columns@[k]@;
                    assert(column_recorded(column_rows@, id, cols@[m]@));
                }
            }
            proof {
                assert forall|k: int| 0 <= k < info.columns@.len() implies #[trigger] col_in(column_rows@, id, info.columns@[k]@) by {
                    assert(one_of(cols@, info.columns@[k]));
                    let m = choose|m: int| 0 <= m < cols@.len() && (#[trigger] cols@[m])@ == info.columns@[k]@;
                    assert(columns_view(cols@)[m] == cols@[m]@);
                }
                assert(columns_view(cols@).len() == cols@.len());
                assert(info.columns@.len() == cols_for(column_rows@, id).len());
            }
            let heap = TableHeap::from_existing(id, page_counts[i]);
            let ghost before = catalog.tables@;
            let ghost info_g = info;
            let t = PhysicalTable { file_id: id, name, heap, info };
            proof {
                assert(t.info == info_g);
                assert(t.info.columns@.len() == cols_for(column_rows@, t.file_id).len());
                assert forall|k: int| 0 <= k < t.info.columns@.len() implies #[trigger] col_in(column_rows@, t.file_id, t.info.columns@[k]@) by {
                    assert(t.info.columns@[k] == info_g.columns@[k]);
                }
                assert(columns_loaded(column_rows@, t));
            }
            catalog.tables.push(t);
            proof {
                assert(catalog.tables@[i as int] == t);
                assert(columns_loaded(column_rows@, catalog.tables@[i as int]));
                assert forall|a: int, b: int| 0 <= a < b < catalog.tables@.len() implies (#[trigger] catalog.tables@[a]).name@ != (
                    #[trigger] catalog.tables@[b]).name@ by {
                    if b == before.len() {
                        assert(before[a].name@ != catalog.tables@[b].name@);
                    }
                }
            }
            i = i + 1;
        }
        proof {
            assert forall|a: int, b: int| 0 <= a < b < relation_rows@.len() implies parse_relation_spec(
                #[trigger] relation_rows@[a]@,
            ).unwrap().1 != parse_relation_spec(#[trigger] relation_rows@[b]@).unwrap().1 by {
                assert(catalog.tables@[a].name@ != catalog.tables@[b].name@);
            }
        }
        Ok(catalog)
    }
}

} // verus!
