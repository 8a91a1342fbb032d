//! Code generation: merge a derived field list and a binding request into
//! emitted source text for one of two operation shapes.
//!
//! The single-row shape issues a query expected to return at most one row
//! and, when a row comes back, constructs one record; the many-row shape
//! issues a query returning any number of rows and constructs one record per
//! row.  Both assign, for each projection field in field-list order,
//! `name: row.get(column_index)`, with the index emitted as a suffixed
//! `usize` literal.  The emitted call embeds the original, unrewritten SQL
//! text, re-quoted as a string literal.

use vstd::prelude::*;

use crate::analyze::analyze_sql;
use crate::analyze::fields_view;
use crate::analyze::field_list_of;
use crate::analyze::AnalyzeError;
use crate::analyze::ProjectionField;
use crate::analyze::ProjectionFieldV;
use crate::request::views_of;
use crate::request::BindingRequest;
use crate::request::BindingRequestV;
use crate::text::dec_bytes;
use crate::text::push_bytes;
use crate::text::push_decimal;

verus! {

/// Which of the two operation shapes is generated: one optional row, or a
/// collection of rows.
#[derive(Clone, Copy)]
pub enum BindShape {
    Single,
    Many,
}

/// A byte of the SQL text as it stands inside the emitted string literal:
/// quotes and backslashes get a backslash escape, a carriage return becomes
/// `\r` (a bare one is not valid inside a string literal), and all other
/// bytes stand as they are.
pub open spec fn escape_from(v: Seq<u8>, i: int) -> Seq<u8>
    decreases v.len() - i,
{
    if i < 0 || i >= v.len() {
        Seq::empty()
    } else if v[i] == 34 || v[i] == 92 {
        seq![92u8, v[i]] + escape_from(v, i + 1)
    } else if v[i] == 13 {
        seq![92u8, 114u8] + escape_from(v, i + 1)
    } else {
        seq![v[i]] + escape_from(v, i + 1)
    }
}

/// The SQL text as an emitted string literal: quoted and escaped.
pub open spec fn sql_literal(v: Seq<u8>) -> Seq<u8> {
    seq![34u8] + escape_from(v, 0) + seq![34u8]
}

/// The byte string `{ let res = `.
pub open spec fn fr_single_head() -> Seq<u8> {
    seq![123u8, 32, 108, 101, 116, 32, 114, 101, 115, 32, 61, 32]
}

/// Append the byte string `{ let res = `.
fn push_fr_single_head(out: &mut Vec<u8>)
    ensures
        final(out)@ == old(out)@ + fr_single_head(),
{
    out.push(123);
    out.push(32);
    out.push(108);
    out.push(101);
    out.push(116);
    out.push(32);
    out.push(114);
    out.push(101);
    out.push(115);
    out.push(32);
    out.push(61);
    out.push(32);
    proof {
        assert(out@ =~= old(out)@ + fr_single_head());
    }
}

/// The byte string `{ let rows = `.
pub open spec fn fr_many_head() -> Seq<u8> {
    seq![123u8, 32, 108, 101, 116, 32, 114, 111, 119, 115, 32, 61, 32]
}

/// Append the byte string `{ let rows = `.
fn push_fr_many_head(out: &mut Vec<u8>)
    ensures
        final(out)@ == old(out)@ + fr_many_head(),
{
    out.push(123);
    out.push(32);
    out.push(108);
    out.push(101);
    out.push(116);
    out.push(32);
    out.push(114);
    out.push(111);
    out.push(119);
    out.push(115);
    out.push(32);
    out.push(61);
    out.push(32);
    proof {
        assert(out@ =~= old(out)@ + fr_many_head());
    }
}

/// The byte string `.query_opt(`.
pub open spec fn fr_query_opt() -> Seq<u8> {
    seq![46u8, 113, 117, 101, 114, 121, 95, 111, 112, 116, 40]
}

/// Append the byte string `.query_opt(`.
fn push_fr_query_opt(out: &mut Vec<u8>)
    ensures
        final(out)@ == old(out)@ + fr_query_opt(),
{
    out.push(46);
    out.push(113);
    out.push(117);
    out.push(101);
    out.push(114);
    out.push(121);
    out.push(95);
    out.push(111);
    out.push(112);
    out.push(116);
    out.push(40);
    proof {
        assert(out@ =~= old(out)@ + fr_query_opt());
    }
}

/// The byte string `.query(`.
pub open spec fn fr_query_all() -> Seq<u8> {
    seq![46u8, 113, 117, 101, 114, 121, 40]
}

/// Append the byte string `.query(`.
fn push_fr_query_all(out: &mut Vec<u8>)
    ensures
        final(out)@ == old(out)@ + fr_query_all(),
{
    out.push(46);
    out.push(113);
    out.push(117);
    out.push(101);
    out.push(114);
    out.push(121);
    out.push(40);
    proof {
        assert(out@ =~= old(out)@ + fr_query_all());
    }
}

/// The byte string `, &[`.
pub open spec fn fr_args_open() -> Seq<u8> {
    seq![44u8, 32, 38, 91]
}

/// Append the byte string `, &[`.
fn push_fr_args_open(out: &mut Vec<u8>)
    ensures
        final(out)@ == old(out)@ + fr_args_open(),
{
    out.push(44);
    out.push(32);
    out.push(38);
    out.push(91);
    proof {
        assert(out@ =~= old(out)@ + fr_args_open());
    }
}

/// The byte string `]).await?; return Ok(match res { Some(row) => Some(Self { `.
pub open spec fn fr_single_mid() -> Seq<u8> {
    seq![93u8, 41, 46, 97, 119, 97, 105, 116, 63, 59, 32, 114, 101, 116, 117, 114, 110, 32, 79, 107, 40, 109, 97, 116, 99, 104, 32, 114, 101, 115, 32, 123, 32, 83, 111, 109, 101, 40, 114, 111, 119, 41, 32, 61, 62, 32, 83, 111, 109, 101, 40, 83, 101, 108, 102, 32, 123, 32]
}

/// Append the byte string `]).await?; return Ok(match res { Some(row) => Some(Self { `.
#[verifier::rlimit(50)]
fn push_fr_single_mid(out: &mut Vec<u8>)
    ensures
        final(out)@ == old(out)@ + fr_single_mid(),
{
    out.push(93);
    out.push(41);
    out.push(46);
    out.push(97);
    out.push(119);
    out.push(97);
    out.push(105);
    out.push(116);
    out.push(63);
    out.push(59);
    out.push(32);
    out.push(114);
    out.push(101);
    out.push(116);
    out.push(117);
    out.push(114);
    out.push(110);
    out.push(32);
    out.push(79);
    out.push(107);
    out.push(40);
    out.push(109);
    out.push(97);
    out.push(116);
    out.push(99);
    out.push(104);
    out.push(32);
    out.push(114);
    out.push(101);
    out.push(115);
    out.push(32);
    out.push(123);
    out.push(32);
    out.push(83);
    out.push(111);
    out.push(109);
    out.push(101);
    out.push(40);
    out.push(114);
    out.push(111);
    out.push(119);
    out.push(41);
    out.push(32);
    out.push(61);
    out.push(62);
    out.push(32);
    out.push(83);
    out.push(111);
    out.push(109);
    out.push(101);
    out.push(40);
    out.push(83);
    out.push(101);
    out.push(108);
    out.push(102);
    out.push(32);
    out.push(123);
    out.push(32);
    proof {
        assert(out@ =~= old(out)@ + fr_single_mid());
    }
}

/// The byte string ` }), None => None }) }`.
pub open spec fn fr_single_tail() -> Seq<u8> {
    seq![32u8, 125, 41, 44, 32, 78, 111, 110, 101, 32, 61, 62, 32, 78, 111, 110, 101, 32, 125, 41, 32, 125]
}

/// Append the byte string ` }), None => None }) }`.
#[verifier::rlimit(50)]
fn push_fr_single_tail(out: &mut Vec<u8>)
    ensures
        final(out)@ == old(out)@ + fr_single_tail(),
{
    out.push(32);
    out.push(125);
    out.push(41);
    out.push(44);
    out.push(32);
    out.push(78);
    out.push(111);
    out.push(110);
    out.push(101);
    out.push(32);
    out.push(61);
    out.push(62);
    out.push(32);
    out.push(78);
    out.push(111);
    out.push(110);
    out.push(101);
    out.push(32);
    out.push(125);
    out.push(41);
    out.push(32);
    out.push(125);
    proof {
        assert(out@ =~= old(out)@ + fr_single_tail());
    }
}

/// The byte string `]).await?; return Ok(rows.iter().map(|row| Self { `.
pub open spec fn fr_many_mid() -> Seq<u8> {
    seq![93u8, 41, 46, 97, 119, 97, 105, 116, 63, 59, 32, 114, 101, 116, 117, 114, 110, 32, 79, 107, 40, 114, 111, 119, 115, 46, 105, 116, 101, 114, 40, 41, 46, 109, 97, 112, 40, 124, 114, 111, 119, 124, 32, 83, 101, 108, 102, 32, 123, 32]
}

/// Append the byte string `]).await?; return Ok(rows.iter().map(|row| Self { `.
#[verifier::rlimit(50)]
fn push_fr_many_mid(out: &mut Vec<u8>)
    ensures
        final(out)@ == old(out)@ + fr_many_mid(),
{
    out.push(93);
    out.push(41);
    out.push(46);
    out.push(97);
    out.push(119);
    out.push(97);
    out.push(105);
    out.push(116);
    out.push(63);
    out.push(59);
    out.push(32);
    out.push(114);
    out.push(101);
    out.push(116);
    out.push(117);
    out.push(114);
    out.push(110);
    out.push(32);
    out.push(79);
    out.push(107);
    out.push(40);
    out.push(114);
    out.push(111);
    out.push(119);
    out.push(115);
    out.push(46);
    out.push(105);
    out.push(116);
    out.push(101);
    out.push(114);
    out.push(40);
    out.push(41);
    out.push(46);
    out.push(109);
    out.push(97);
    out.push(112);
    out.push(40);
    out.push(124);
    out.push(114);
    out.push(111);
    out.push(119);
    out.push(124);
    out.push(32);
    out.push(83);
    out.push(101);
    out.push(108);
    out.push(102);
    out.push(32);
    out.push(123);
    out.push(32);
    proof {
        assert(out@ =~= old(out)@ + fr_many_mid());
    }
}

/// The byte string ` }).collect()) }`.
pub open spec fn fr_many_tail() -> Seq<u8> {
    seq![32u8, 125, 41, 46, 99, 111, 108, 108, 101, 99, 116, 40, 41, 41, 32, 125]
}

/// Append the byte string ` }).collect()) }`.
#[verifier::rlimit(50)]
fn push_fr_many_tail(out: &mut Vec<u8>)
    ensures
        final(out)@ == old(out)@ + fr_many_tail(),
{
    out.push(32);
    out.push(125);
    out.push(41);
    out.push(46);
    out.push(99);
    out.push(111);
    out.push(108);
    out.push(108);
    out.push(101);
    out.push(99);
    out.push(116);
    out.push(40);
    out.push(41);
    out.push(41);
    out.push(32);
    out.push(125);
    proof {
        assert(out@ =~= old(out)@ + fr_many_tail());
    }
}

/// The byte string `, `.
pub open spec fn fr_sep() -> Seq<u8> {
    seq![44u8, 32]
}

/// Append the byte string `, `.
fn push_fr_sep(out: &mut Vec<u8>)
    ensures
        final(out)@ == old(out)@ + fr_sep(),
{
    out.push(44);
    out.push(32);
    proof {
        assert(out@ =~= old(out)@ + fr_sep());
    }
}

/// The byte string `: row.get(`.
pub open spec fn fr_row_get() -> Seq<u8> {
    seq![58u8, 32, 114, 111, 119, 46, 103, 101, 116, 40]
}

/// Append the byte string `: row.get(`.
fn push_fr_row_get(out: &mut Vec<u8>)
    ensures
        final(out)@ == old(out)@ + fr_row_get(),
{
    out.push(58);
    out.push(32);
    out.push(114);
    out.push(111);
    out.push(119);
    out.push(46);
    out.push(103);
    out.push(101);
    out.push(116);
    out.push(40);
    proof {
        assert(out@ =~= old(out)@ + fr_row_get());
    }
}

/// The byte string `usize)`: the row index is emitted as a suffixed
/// `usize` literal, which is what the row accessor's index type expects.
pub open spec fn fr_index_close() -> Seq<u8> {
    seq![117u8, 115, 105, 122, 101, 41]
}

/// Append the byte string `usize)`.
fn push_fr_index_close(out: &mut Vec<u8>)
    ensures
        final(out)@ == old(out)@ + fr_index_close(),
{
    out.push(117);
    out.push(115);
    out.push(105);
    out.push(122);
    out.push(101);
    out.push(41);
    proof {
        assert(out@ =~= old(out)@ + fr_index_close());
    }
}

/// The emitted argument list: the bound-parameter expressions in order,
/// separated by `, `.
pub open spec fn args_text(args: Seq<Seq<u8>>, i: int) -> Seq<u8>
    decreases args.len() - i,
{
    if i < 0 || i >= args.len() {
        Seq::empty()
    } else {
        args[i] + (if i + 1 < args.len() {
            fr_sep()
        } else {
            Seq::empty()
        }) + args_text(args, i + 1)
    }
}

/// The emitted record construction body: for each field in order,
/// `name: row.get(column_index)`, separated by `, `.
pub open spec fn assigns_text(fields: Seq<ProjectionFieldV>, i: int) -> Seq<u8>
    decreases fields.len() - i,
{
    if i < 0 || i >= fields.len() {
        Seq::empty()
    } else {
        fields[i].name + fr_row_get() + dec_bytes(fields[i].column_index as nat) + fr_index_close() + (
        if i + 1 < fields.len() {
            fr_sep()
        } else {
            Seq::empty()
        }) + assigns_text(fields, i + 1)
    }
}

/// The whole emitted text of the single-row shape.
pub open spec fn single_text(req: BindingRequestV, fields: Seq<ProjectionFieldV>) -> Seq<u8> {
    fr_single_head() + req.client + fr_query_opt() + sql_literal(req.sql) + fr_args_open()
        + args_text(req.args, 0) + fr_single_mid() + assigns_text(fields, 0) + fr_single_tail()
}

/// The whole emitted text of the many-row shape.
pub open spec fn many_text(req: BindingRequestV, fields: Seq<ProjectionFieldV>) -> Seq<u8> {
    fr_many_head() + req.client + fr_query_all() + sql_literal(req.sql) + fr_args_open()
        + args_text(req.args, 0) + fr_many_mid() + assigns_text(fields, 0) + fr_many_tail()
}

/// The whole emitted text, by shape.
pub open spec fn binding_text(
    shape: BindShape,
    req: BindingRequestV,
    fields: Seq<ProjectionFieldV>,
) -> Seq<u8> {
    match shape {
        BindShape::Single => single_text(req, fields),
        BindShape::Many => many_text(req, fields),
    }
}

/// Append the SQL text as a quoted, escaped string literal.
fn push_sql_literal(out: &mut Vec<u8>, v: &Vec<u8>)
    ensures
        final(out)@ == old(out)@ + sql_literal(v@),
{
    out.push(34);
    let mut i: usize = 0;
    while i < v.len()
        invariant
            i <= v@.len(),
            out@ + escape_from(v@, i as int) == old(out)@ + seq![34u8] + escape_from(v@, 0),
        decreases v@.len() - i,
    {
        let b = v[i];
        if b == 34 || b == 92 {
            out.push(92);
            out.push(b);
        } else if b == 13 {
            out.push(92);
            out.push(114);
        } else {
            out.push(b);
        }
        proof {
            assert(out@ + escape_from(v@, i + 1 as int) =~= old(out)@ + seq![34u8] + escape_from(
                v@,
                0,
            ));
        }
        i = i + 1;
    }
    out.push(34);
    proof {
        assert(out@ =~= old(out)@ + sql_literal(v@));
    }
}

/// Append the argument list.
fn push_args(out: &mut Vec<u8>, args: &Vec<Vec<u8>>)
    ensures
        final(out)@ == old(out)@ + args_text(views_of(args@), 0),
{
    let mut i: usize = 0;
    while i < args.len()
        invariant
            i <= args@.len(),
            out@ + args_text(views_of(args@), i as int) == old(out)@ + args_text(
                views_of(args@),
                0,
            ),
        decreases args@.len() - i,
    {
        push_bytes(out, &args[i]);
        if i + 1 < args.len() {
            push_fr_sep(out);
        }
        proof {
            assert(views_of(args@)[i as int] == args@[i as int]@);
            assert(out@ + args_text(views_of(args@), i + 1 as int) =~= old(out)@ + args_text(
                views_of(args@),
                0,
            ));
        }
        i = i + 1;
    }
    proof {
        assert(out@ + args_text(views_of(args@), args@.len() as int) =~= out@);
    }
}

/// Append the record construction body.
fn push_assigns(out: &mut Vec<u8>, fields: &Vec<ProjectionField>)
    ensures
        final(out)@ == old(out)@ + assigns_text(fields_view(fields@), 0),
{
    let mut i: usize = 0;
    while i < fields.len()
        invariant
            i <= fields@.len(),
            out@ + assigns_text(fields_view(fields@), i as int) == old(out)@ + assigns_text(
                fields_view(fields@),
                0,
            ),
        decreases fields@.len() - i,
    {
        push_bytes(out, &fields[i].name);
        push_fr_row_get(out);
        push_decimal(out, fields[i].column_index);
        push_fr_index_close(out);
        if i + 1 < fields.len() {
            push_fr_sep(out);
        }
        proof {
            assert(fields_view(fields@)[i as int] == fields@[i as int]@);
            assert(out@ + assigns_text(fields_view(fields@), i + 1 as int) =~= old(out)@
                + assigns_text(fields_view(fields@), 0));
        }
        i = i + 1;
    }
    proof {
        assert(out@ + assigns_text(fields_view(fields@), fields@.len() as int) =~= out@);
    }
}

/// Generate the emitted source text for one binding request, in the given
/// shape.  The SQL text is analyzed as it stands in the request; generation
/// fails exactly when the analysis does, and nothing is emitted then.
pub fn generate(shape: BindShape, req: &BindingRequest) -> (r: Result<Vec<u8>, AnalyzeError>)
    ensures
        r is Ok <==> field_list_of(req.sql@) is Some,
        r matches Ok(code) ==> (field_list_of(req.sql@) matches Some(fl) && code@ == binding_text(
            shape,
            req@,
            fl,
        )),
{
    let fields = match analyze_sql(&req.sql) {
        Ok(f) => f,
        Err(e) => {
            return Err(e);
        },
    };
    let mut out: Vec<u8> = Vec::new();
    match shape {
        BindShape::Single => push_fr_single_head(&mut out),
        BindShape::Many => push_fr_many_head(&mut out),
    }
    push_bytes(&mut out, &req.client);
    match shape {
        BindShape::Single => push_fr_query_opt(&mut out),
        BindShape::Many => push_fr_query_all(&mut out),
    }
    push_sql_literal(&mut out, &req.sql);
    push_fr_args_open(&mut out);
    push_args(&mut out, &req.args);
    match shape {
        BindShape::Single => push_fr_single_mid(&mut out),
        BindShape::Many => push_fr_many_mid(&mut out),
    }
    push_assigns(&mut out, &fields);
    match shape {
        BindShape::Single => push_fr_single_tail(&mut out),
        BindShape::Many => push_fr_many_tail(&mut out),
    }
    proof {
        assert(req@.args =~= views_of(req.args@));
        assert(out@ =~= binding_text(shape, req@, fields_view(fields@)));
    }
    Ok(out)
}

/// Generate the single-row shape: the emitted code requests at most one row
/// and yields an optional record.
pub fn one_from(req: &BindingRequest) -> (r: Result<Vec<u8>, AnalyzeError>)
    ensures
        r is Ok <==> field_list_of(req.sql@) is Some,
        r matches Ok(code) ==> (field_list_of(req.sql@) matches Some(fl) && code@ == single_text(
            req@,
            fl,
        )),
{
    generate(BindShape::Single, req)
}

/// Generate the many-row shape: the emitted code requests all rows and
/// yields one record per row, in row-return order.
pub fn many_from(req: &BindingRequest) -> (r: Result<Vec<u8>, AnalyzeError>)
    ensures
        r is Ok <==> field_list_of(req.sql@) is Some,
        r matches Ok(code) ==> (field_list_of(req.sql@) matches Some(fl) && code@ == many_text(
            req@,
            fl,
        )),
{
    generate(BindShape::Many, req)
}

} // verus!
