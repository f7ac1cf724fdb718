//! Fixed byte strings of the protocol: methods, header names and values.
use vstd::prelude::*;

verus! {

/// `GET`
pub open spec fn method_get() -> Seq<u8> {
    seq![71u8, 69, 84]
}

pub fn method_get_bytes() -> (r: Vec<u8>)
    ensures
        r@ == method_get(),
{
    let r: Vec<u8> = vec![71u8, 69, 84];
    assert(r@ =~= method_get());
    r
}

/// `HEAD`
pub open spec fn method_head() -> Seq<u8> {
    seq![72u8, 69, 65, 68]
}

pub fn method_head_bytes() -> (r: Vec<u8>)
    ensures
        r@ == method_head(),
{
    let r: Vec<u8> = vec![72u8, 69, 65, 68];
    assert(r@ =~= method_head());
    r
}

/// `POST`
pub open spec fn method_post() -> Seq<u8> {
    seq![80u8, 79, 83, 84]
}

pub fn method_post_bytes() -> (r: Vec<u8>)
    ensures
        r@ == method_post(),
{
    let r: Vec<u8> = vec![80u8, 79, 83, 84];
    assert(r@ =~= method_post());
    r
}

/// `PUT`
pub open spec fn method_put() -> Seq<u8> {
    seq![80u8, 85, 84]
}

pub fn method_put_bytes() -> (r: Vec<u8>)
    ensures
        r@ == method_put(),
{
    let r: Vec<u8> = vec![80u8, 85, 84];
    assert(r@ =~= method_put());
    r
}

/// `DELETE`
pub open spec fn method_delete() -> Seq<u8> {
    seq![68u8, 69, 76, 69, 84, 69]
}

pub fn method_delete_bytes() -> (r: Vec<u8>)
    ensures
        r@ == method_delete(),
{
    let r: Vec<u8> = vec![68u8, 69, 76, 69, 84, 69];
    assert(r@ =~= method_delete());
    r
}

/// `CONNECT`
pub open spec fn method_connect() -> Seq<u8> {
    seq![67u8, 79, 78, 78, 69, 67, 84]
}

pub fn method_connect_bytes() -> (r: Vec<u8>)
    ensures
        r@ == method_connect(),
{
    let r: Vec<u8> = vec![67u8, 79, 78, 78, 69, 67, 84];
    assert(r@ =~= method_connect());
    r
}

/// `OPTIONS`
pub open spec fn method_options() -> Seq<u8> {
    seq![79u8, 80, 84, 73, 79, 78, 83]
}

pub fn method_options_bytes() -> (r: Vec<u8>)
    ensures
        r@ == method_options(),
{
    let r: Vec<u8> = vec![79u8, 80, 84, 73, 79, 78, 83];
    assert(r@ =~= method_options());
    r
}

/// `TRACE`
pub open spec fn method_trace() -> Seq<u8> {
    seq![84u8, 82, 65, 67, 69]
}

pub fn method_trace_bytes() -> (r: Vec<u8>)
    ensures
        r@ == method_trace(),
{
    let r: Vec<u8> = vec![84u8, 82, 65, 67, 69];
    assert(r@ =~= method_trace());
    r
}

/// `PATCH`
pub open spec fn method_patch() -> Seq<u8> {
    seq![80u8, 65, 84, 67, 72]
}

pub fn method_patch_bytes() -> (r: Vec<u8>)
    ensures
        r@ == method_patch(),
{
    let r: Vec<u8> = vec![80u8, 65, 84, 67, 72];
    assert(r@ =~= method_patch());
    r
}

/// `content-length`
pub open spec fn name_content_length() -> Seq<u8> {
    seq![99u8, 111, 110, 116, 101, 110, 116, 45, 108, 101, 110, 103, 116, 104]
}

pub fn name_content_length_bytes() -> (r: Vec<u8>)
    ensures
        r@ == name_content_length(),
{
    let r: Vec<u8> = vec![99u8, 111, 110, 116, 101, 110, 116, 45, 108, 101, 110, 103, 116, 104];
    assert(r@ =~= name_content_length());
    r
}

/// `transfer-encoding`
pub open spec fn name_transfer_encoding() -> Seq<u8> {
    seq![116u8, 114, 97, 110, 115, 102, 101, 114, 45, 101, 110, 99, 111, 100, 105, 110, 103]
}

pub fn name_transfer_encoding_bytes() -> (r: Vec<u8>)
    ensures
        r@ == name_transfer_encoding(),
{
    let r: Vec<u8> = vec![116u8, 114, 97, 110, 115, 102, 101, 114, 45, 101, 110, 99, 111, 100, 105, 110, 103];
    assert(r@ =~= name_transfer_encoding());
    r
}

/// `connection`
pub open spec fn name_connection() -> Seq<u8> {
    seq![99u8, 111, 110, 110, 101, 99, 116, 105, 111, 110]
}

pub fn name_connection_bytes() -> (r: Vec<u8>)
    ensures
        r@ == name_connection(),
{
    let r: Vec<u8> = vec![99u8, 111, 110, 110, 101, 99, 116, 105, 111, 110];
    assert(r@ =~= name_connection());
    r
}

/// `expect`
pub open spec fn name_expect() -> Seq<u8> {
    seq![101u8, 120, 112, 101, 99, 116]
}

pub fn name_expect_bytes() -> (r: Vec<u8>)
    ensures
        r@ == name_expect(),
{
    let r: Vec<u8> = vec![101u8, 120, 112, 101, 99, 116];
    assert(r@ =~= name_expect());
    r
}

/// `date`
pub open spec fn name_date() -> Seq<u8> {
    seq![100u8, 97, 116, 101]
}

pub fn name_date_bytes() -> (r: Vec<u8>)
    ensures
        r@ == name_date(),
{
    let r: Vec<u8> = vec![100u8, 97, 116, 101];
    assert(r@ =~= name_date());
    r
}

/// `chunked`
pub open spec fn value_chunked() -> Seq<u8> {
    seq![99u8, 104, 117, 110, 107, 101, 100]
}

pub fn value_chunked_bytes() -> (r: Vec<u8>)
    ensures
        r@ == value_chunked(),
{
    let r: Vec<u8> = vec![99u8, 104, 117, 110, 107, 101, 100];
    assert(r@ =~= value_chunked());
    r
}

/// `close`
pub open spec fn value_close() -> Seq<u8> {
    seq![99u8, 108, 111, 115, 101]
}

pub fn value_close_bytes() -> (r: Vec<u8>)
    ensures
        r@ == value_close(),
{
    let r: Vec<u8> = vec![99u8, 108, 111, 115, 101];
    assert(r@ =~= value_close());
    r
}

/// `keep-alive`
pub open spec fn value_keep_alive() -> Seq<u8> {
    seq![107u8, 101, 101, 112, 45, 97, 108, 105, 118, 101]
}

pub fn value_keep_alive_bytes() -> (r: Vec<u8>)
    ensures
        r@ == value_keep_alive(),
{
    let r: Vec<u8> = vec![107u8, 101, 101, 112, 45, 97, 108, 105, 118, 101];
    assert(r@ =~= value_keep_alive());
    r
}

/// `upgrade`
pub open spec fn value_upgrade() -> Seq<u8> {
    seq![117u8, 112, 103, 114, 97, 100, 101]
}

pub fn value_upgrade_bytes() -> (r: Vec<u8>)
    ensures
        r@ == value_upgrade(),
{
    let r: Vec<u8> = vec![117u8, 112, 103, 114, 97, 100, 101];
    assert(r@ =~= value_upgrade());
    r
}

/// `100-continue`
pub open spec fn value_continue() -> Seq<u8> {
    seq![49u8, 48, 48, 45, 99, 111, 110, 116, 105, 110, 117, 101]
}

pub fn value_continue_bytes() -> (r: Vec<u8>)
    ensures
        r@ == value_continue(),
{
    let r: Vec<u8> = vec![49u8, 48, 48, 45, 99, 111, 110, 116, 105, 110, 117, 101];
    assert(r@ =~= value_continue());
    r
}

/// `HTTP/1.0`
pub open spec fn version_10() -> Seq<u8> {
    seq![72u8, 84, 84, 80, 47, 49, 46, 48]
}

pub fn version_10_bytes() -> (r: Vec<u8>)
    ensures
        r@ == version_10(),
{
    let r: Vec<u8> = vec![72u8, 84, 84, 80, 47, 49, 46, 48];
    assert(r@ =~= version_10());
    r
}

/// `HTTP/1.1`
pub open spec fn version_11() -> Seq<u8> {
    seq![72u8, 84, 84, 80, 47, 49, 46, 49]
}

pub fn version_11_bytes() -> (r: Vec<u8>)
    ensures
        r@ == version_11(),
{
    let r: Vec<u8> = vec![72u8, 84, 84, 80, 47, 49, 46, 49];
    assert(r@ =~= version_11());
    r
}

} // verus!
