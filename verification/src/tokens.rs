//! Byte-string constants shared by the library's code and contracts.
//!
//! Each constant comes as a spec-level sequence and an executable vector
//! whose view equals it; the doc comment gives the text.

use vstd::prelude::*;

verus! {

/// `"HTTP/1.1"`
pub open spec fn spec_http11() -> Seq<u8> {
    seq!['H' as u8, 'T' as u8, 'T' as u8, 'P' as u8, '/' as u8, '1' as u8, '.' as u8, '1' as u8]
}

/// `"HTTP/1.1"`
pub fn http11() -> (r: Vec<u8>)
    ensures
        r@ == spec_http11(),
{
    vec!['H' as u8, 'T' as u8, 'T' as u8, 'P' as u8, '/' as u8, '1' as u8, '.' as u8, '1' as u8]
}

/// `"HTTP/1.1 "`
pub open spec fn spec_http11_sp() -> Seq<u8> {
    seq!['H' as u8, 'T' as u8, 'T' as u8, 'P' as u8, '/' as u8, '1' as u8, '.' as u8, '1' as u8, ' ' as u8]
}

/// `"HTTP/1.1 "`
pub fn http11_sp() -> (r: Vec<u8>)
    ensures
        r@ == spec_http11_sp(),
{
    vec!['H' as u8, 'T' as u8, 'T' as u8, 'P' as u8, '/' as u8, '1' as u8, '.' as u8, '1' as u8, ' ' as u8]
}

/// `"\r\n"`
pub open spec fn spec_crlf() -> Seq<u8> {
    seq![13u8, 10u8]
}

/// `"\r\n"`
pub fn crlf() -> (r: Vec<u8>)
    ensures
        r@ == spec_crlf(),
{
    vec![13u8, 10u8]
}

/// `"\r\n\r\n"`
pub open spec fn spec_crlf_crlf() -> Seq<u8> {
    seq![13u8, 10u8, 13u8, 10u8]
}

/// `"\r\n\r\n"`
pub fn crlf_crlf() -> (r: Vec<u8>)
    ensures
        r@ == spec_crlf_crlf(),
{
    vec![13u8, 10u8, 13u8, 10u8]
}

/// `"\n\n"`
pub open spec fn spec_lf_lf() -> Seq<u8> {
    seq![10u8, 10u8]
}

/// `"\n\n"`
pub fn lf_lf() -> (r: Vec<u8>)
    ensures
        r@ == spec_lf_lf(),
{
    vec![10u8, 10u8]
}

/// `": "`
pub open spec fn spec_colon_sp() -> Seq<u8> {
    seq![':' as u8, ' ' as u8]
}

/// `": "`
pub fn colon_sp() -> (r: Vec<u8>)
    ensures
        r@ == spec_colon_sp(),
{
    vec![':' as u8, ' ' as u8]
}

/// `"GET"`
pub open spec fn spec_get() -> Seq<u8> {
    seq!['G' as u8, 'E' as u8, 'T' as u8]
}

/// `"GET"`
pub fn get() -> (r: Vec<u8>)
    ensures
        r@ == spec_get(),
{
    vec!['G' as u8, 'E' as u8, 'T' as u8]
}

/// `"POST"`
pub open spec fn spec_post() -> Seq<u8> {
    seq!['P' as u8, 'O' as u8, 'S' as u8, 'T' as u8]
}

/// `"POST"`
pub fn post() -> (r: Vec<u8>)
    ensures
        r@ == spec_post(),
{
    vec!['P' as u8, 'O' as u8, 'S' as u8, 'T' as u8]
}

/// `"DELETE"`
pub open spec fn spec_delete() -> Seq<u8> {
    seq!['D' as u8, 'E' as u8, 'L' as u8, 'E' as u8, 'T' as u8, 'E' as u8]
}

/// `"DELETE"`
pub fn delete() -> (r: Vec<u8>)
    ensures
        r@ == spec_delete(),
{
    vec!['D' as u8, 'E' as u8, 'L' as u8, 'E' as u8, 'T' as u8, 'E' as u8]
}

/// `"Content-Length"`
pub open spec fn spec_content_length() -> Seq<u8> {
    seq!['C' as u8, 'o' as u8, 'n' as u8, 't' as u8, 'e' as u8, 'n' as u8, 't' as u8, '-' as u8, 'L' as u8, 'e' as u8, 'n' as u8, 'g' as u8, 't' as u8, 'h' as u8]
}

/// `"Content-Length"`
pub fn content_length() -> (r: Vec<u8>)
    ensures
        r@ == spec_content_length(),
{
    vec!['C' as u8, 'o' as u8, 'n' as u8, 't' as u8, 'e' as u8, 'n' as u8, 't' as u8, '-' as u8, 'L' as u8, 'e' as u8, 'n' as u8, 'g' as u8, 't' as u8, 'h' as u8]
}

/// `"Transfer-Encoding"`
pub open spec fn spec_transfer_encoding() -> Seq<u8> {
    seq!['T' as u8, 'r' as u8, 'a' as u8, 'n' as u8, 's' as u8, 'f' as u8, 'e' as u8, 'r' as u8, '-' as u8, 'E' as u8, 'n' as u8, 'c' as u8, 'o' as u8, 'd' as u8, 'i' as u8, 'n' as u8, 'g' as u8]
}

/// `"Transfer-Encoding"`
pub fn transfer_encoding() -> (r: Vec<u8>)
    ensures
        r@ == spec_transfer_encoding(),
{
    vec!['T' as u8, 'r' as u8, 'a' as u8, 'n' as u8, 's' as u8, 'f' as u8, 'e' as u8, 'r' as u8, '-' as u8, 'E' as u8, 'n' as u8, 'c' as u8, 'o' as u8, 'd' as u8, 'i' as u8, 'n' as u8, 'g' as u8]
}

/// `"chunked"`
pub open spec fn spec_chunked() -> Seq<u8> {
    seq!['c' as u8, 'h' as u8, 'u' as u8, 'n' as u8, 'k' as u8, 'e' as u8, 'd' as u8]
}

/// `"chunked"`
pub fn chunked() -> (r: Vec<u8>)
    ensures
        r@ == spec_chunked(),
{
    vec!['c' as u8, 'h' as u8, 'u' as u8, 'n' as u8, 'k' as u8, 'e' as u8, 'd' as u8]
}

/// `"Host"`
pub open spec fn spec_host() -> Seq<u8> {
    seq!['H' as u8, 'o' as u8, 's' as u8, 't' as u8]
}

/// `"Host"`
pub fn host() -> (r: Vec<u8>)
    ensures
        r@ == spec_host(),
{
    vec!['H' as u8, 'o' as u8, 's' as u8, 't' as u8]
}

/// `"Connection"`
pub open spec fn spec_connection() -> Seq<u8> {
    seq!['C' as u8, 'o' as u8, 'n' as u8, 'n' as u8, 'e' as u8, 'c' as u8, 't' as u8, 'i' as u8, 'o' as u8, 'n' as u8]
}

/// `"Connection"`
pub fn connection() -> (r: Vec<u8>)
    ensures
        r@ == spec_connection(),
{
    vec!['C' as u8, 'o' as u8, 'n' as u8, 'n' as u8, 'e' as u8, 'c' as u8, 't' as u8, 'i' as u8, 'o' as u8, 'n' as u8]
}

/// `"close"`
pub open spec fn spec_close() -> Seq<u8> {
    seq!['c' as u8, 'l' as u8, 'o' as u8, 's' as u8, 'e' as u8]
}

/// `"close"`
pub fn close() -> (r: Vec<u8>)
    ensures
        r@ == spec_close(),
{
    vec!['c' as u8, 'l' as u8, 'o' as u8, 's' as u8, 'e' as u8]
}

/// `"Keep-Alive"`
pub open spec fn spec_keep_alive() -> Seq<u8> {
    seq!['K' as u8, 'e' as u8, 'e' as u8, 'p' as u8, '-' as u8, 'A' as u8, 'l' as u8, 'i' as u8, 'v' as u8, 'e' as u8]
}

/// `"Keep-Alive"`
pub fn keep_alive() -> (r: Vec<u8>)
    ensures
        r@ == spec_keep_alive(),
{
    vec!['K' as u8, 'e' as u8, 'e' as u8, 'p' as u8, '-' as u8, 'A' as u8, 'l' as u8, 'i' as u8, 'v' as u8, 'e' as u8]
}

/// `"timeout=30, max=100"`
pub open spec fn spec_keep_alive_value() -> Seq<u8> {
    seq!['t' as u8, 'i' as u8, 'm' as u8, 'e' as u8, 'o' as u8, 'u' as u8, 't' as u8, '=' as u8, '3' as u8, '0' as u8, ',' as u8, ' ' as u8, 'm' as u8, 'a' as u8, 'x' as u8, '=' as u8, '1' as u8, '0' as u8, '0' as u8]
}

/// `"timeout=30, max=100"`
pub fn keep_alive_value() -> (r: Vec<u8>)
    ensures
        r@ == spec_keep_alive_value(),
{
    vec!['t' as u8, 'i' as u8, 'm' as u8, 'e' as u8, 'o' as u8, 'u' as u8, 't' as u8, '=' as u8, '3' as u8, '0' as u8, ',' as u8, ' ' as u8, 'm' as u8, 'a' as u8, 'x' as u8, '=' as u8, '1' as u8, '0' as u8, '0' as u8]
}

/// `"keep-alive"`
pub open spec fn spec_keep_alive_word() -> Seq<u8> {
    seq!['k' as u8, 'e' as u8, 'e' as u8, 'p' as u8, '-' as u8, 'a' as u8, 'l' as u8, 'i' as u8, 'v' as u8, 'e' as u8]
}

/// `"keep-alive"`
pub fn keep_alive_word() -> (r: Vec<u8>)
    ensures
        r@ == spec_keep_alive_word(),
{
    vec!['k' as u8, 'e' as u8, 'e' as u8, 'p' as u8, '-' as u8, 'a' as u8, 'l' as u8, 'i' as u8, 'v' as u8, 'e' as u8]
}

/// `"Cookie"`
pub open spec fn spec_cookie() -> Seq<u8> {
    seq!['C' as u8, 'o' as u8, 'o' as u8, 'k' as u8, 'i' as u8, 'e' as u8]
}

/// `"Cookie"`
pub fn cookie() -> (r: Vec<u8>)
    ensures
        r@ == spec_cookie(),
{
    vec!['C' as u8, 'o' as u8, 'o' as u8, 'k' as u8, 'i' as u8, 'e' as u8]
}

/// `"Set-Cookie"`
pub open spec fn spec_set_cookie() -> Seq<u8> {
    seq!['S' as u8, 'e' as u8, 't' as u8, '-' as u8, 'C' as u8, 'o' as u8, 'o' as u8, 'k' as u8, 'i' as u8, 'e' as u8]
}

/// `"Set-Cookie"`
pub fn set_cookie() -> (r: Vec<u8>)
    ensures
        r@ == spec_set_cookie(),
{
    vec!['S' as u8, 'e' as u8, 't' as u8, '-' as u8, 'C' as u8, 'o' as u8, 'o' as u8, 'k' as u8, 'i' as u8, 'e' as u8]
}

/// `"SID"`
pub open spec fn spec_sid() -> Seq<u8> {
    seq!['S' as u8, 'I' as u8, 'D' as u8]
}

/// `"SID"`
pub fn sid() -> (r: Vec<u8>)
    ensures
        r@ == spec_sid(),
{
    vec!['S' as u8, 'I' as u8, 'D' as u8]
}

/// `"SID=SID_"`
pub open spec fn spec_sid_value_prefix() -> Seq<u8> {
    seq!['S' as u8, 'I' as u8, 'D' as u8, '=' as u8, 'S' as u8, 'I' as u8, 'D' as u8, '_' as u8]
}

/// `"SID=SID_"`
pub fn sid_value_prefix() -> (r: Vec<u8>)
    ensures
        r@ == spec_sid_value_prefix(),
{
    vec!['S' as u8, 'I' as u8, 'D' as u8, '=' as u8, 'S' as u8, 'I' as u8, 'D' as u8, '_' as u8]
}

/// `"SID_"`
pub open spec fn spec_sid_prefix() -> Seq<u8> {
    seq!['S' as u8, 'I' as u8, 'D' as u8, '_' as u8]
}

/// `"SID_"`
pub fn sid_prefix() -> (r: Vec<u8>)
    ensures
        r@ == spec_sid_prefix(),
{
    vec!['S' as u8, 'I' as u8, 'D' as u8, '_' as u8]
}

/// `"; Path=/; HttpOnly"`
pub open spec fn spec_cookie_attributes() -> Seq<u8> {
    seq![';' as u8, ' ' as u8, 'P' as u8, 'a' as u8, 't' as u8, 'h' as u8, '=' as u8, '/' as u8, ';' as u8, ' ' as u8, 'H' as u8, 't' as u8, 't' as u8, 'p' as u8, 'O' as u8, 'n' as u8, 'l' as u8, 'y' as u8]
}

/// `"; Path=/; HttpOnly"`
pub fn cookie_attributes() -> (r: Vec<u8>)
    ensures
        r@ == spec_cookie_attributes(),
{
    vec![';' as u8, ' ' as u8, 'P' as u8, 'a' as u8, 't' as u8, 'h' as u8, '=' as u8, '/' as u8, ';' as u8, ' ' as u8, 'H' as u8, 't' as u8, 't' as u8, 'p' as u8, 'O' as u8, 'n' as u8, 'l' as u8, 'y' as u8]
}

/// `"Location"`
pub open spec fn spec_location() -> Seq<u8> {
    seq!['L' as u8, 'o' as u8, 'c' as u8, 'a' as u8, 't' as u8, 'i' as u8, 'o' as u8, 'n' as u8]
}

/// `"Location"`
pub fn location() -> (r: Vec<u8>)
    ensures
        r@ == spec_location(),
{
    vec!['L' as u8, 'o' as u8, 'c' as u8, 'a' as u8, 't' as u8, 'i' as u8, 'o' as u8, 'n' as u8]
}

/// `"Content-Type"`
pub open spec fn spec_content_type() -> Seq<u8> {
    seq!['C' as u8, 'o' as u8, 'n' as u8, 't' as u8, 'e' as u8, 'n' as u8, 't' as u8, '-' as u8, 'T' as u8, 'y' as u8, 'p' as u8, 'e' as u8]
}

/// `"Content-Type"`
pub fn content_type() -> (r: Vec<u8>)
    ensures
        r@ == spec_content_type(),
{
    vec!['C' as u8, 'o' as u8, 'n' as u8, 't' as u8, 'e' as u8, 'n' as u8, 't' as u8, '-' as u8, 'T' as u8, 'y' as u8, 'p' as u8, 'e' as u8]
}

/// `"multipart/form-data"`
pub open spec fn spec_multipart_form_data() -> Seq<u8> {
    seq!['m' as u8, 'u' as u8, 'l' as u8, 't' as u8, 'i' as u8, 'p' as u8, 'a' as u8, 'r' as u8, 't' as u8, '/' as u8, 'f' as u8, 'o' as u8, 'r' as u8, 'm' as u8, '-' as u8, 'd' as u8, 'a' as u8, 't' as u8, 'a' as u8]
}

/// `"multipart/form-data"`
pub fn multipart_form_data() -> (r: Vec<u8>)
    ensures
        r@ == spec_multipart_form_data(),
{
    vec!['m' as u8, 'u' as u8, 'l' as u8, 't' as u8, 'i' as u8, 'p' as u8, 'a' as u8, 'r' as u8, 't' as u8, '/' as u8, 'f' as u8, 'o' as u8, 'r' as u8, 'm' as u8, '-' as u8, 'd' as u8, 'a' as u8, 't' as u8, 'a' as u8]
}

/// `"boundary="`
pub open spec fn spec_boundary_eq() -> Seq<u8> {
    seq!['b' as u8, 'o' as u8, 'u' as u8, 'n' as u8, 'd' as u8, 'a' as u8, 'r' as u8, 'y' as u8, '=' as u8]
}

/// `"boundary="`
pub fn boundary_eq() -> (r: Vec<u8>)
    ensures
        r@ == spec_boundary_eq(),
{
    vec!['b' as u8, 'o' as u8, 'u' as u8, 'n' as u8, 'd' as u8, 'a' as u8, 'r' as u8, 'y' as u8, '=' as u8]
}

/// `"filename=""`
pub open spec fn spec_filename_eq_quote() -> Seq<u8> {
    seq!['f' as u8, 'i' as u8, 'l' as u8, 'e' as u8, 'n' as u8, 'a' as u8, 'm' as u8, 'e' as u8, '=' as u8, '"' as u8]
}

/// `"filename=""`
pub fn filename_eq_quote() -> (r: Vec<u8>)
    ensures
        r@ == spec_filename_eq_quote(),
{
    vec!['f' as u8, 'i' as u8, 'l' as u8, 'e' as u8, 'n' as u8, 'a' as u8, 'm' as u8, 'e' as u8, '=' as u8, '"' as u8]
}

/// `"X-Filename"`
pub open spec fn spec_x_filename() -> Seq<u8> {
    seq!['X' as u8, '-' as u8, 'F' as u8, 'i' as u8, 'l' as u8, 'e' as u8, 'n' as u8, 'a' as u8, 'm' as u8, 'e' as u8]
}

/// `"X-Filename"`
pub fn x_filename() -> (r: Vec<u8>)
    ensures
        r@ == spec_x_filename(),
{
    vec!['X' as u8, '-' as u8, 'F' as u8, 'i' as u8, 'l' as u8, 'e' as u8, 'n' as u8, 'a' as u8, 'm' as u8, 'e' as u8]
}

/// `"/upload"`
pub open spec fn spec_slash_upload() -> Seq<u8> {
    seq!['/' as u8, 'u' as u8, 'p' as u8, 'l' as u8, 'o' as u8, 'a' as u8, 'd' as u8]
}

/// `"/upload"`
pub fn slash_upload() -> (r: Vec<u8>)
    ensures
        r@ == spec_slash_upload(),
{
    vec!['/' as u8, 'u' as u8, 'p' as u8, 'l' as u8, 'o' as u8, 'a' as u8, 'd' as u8]
}

/// `"upload"`
pub open spec fn spec_upload_word() -> Seq<u8> {
    seq!['u' as u8, 'p' as u8, 'l' as u8, 'o' as u8, 'a' as u8, 'd' as u8]
}

/// `"upload"`
pub fn upload_word() -> (r: Vec<u8>)
    ensures
        r@ == spec_upload_word(),
{
    vec!['u' as u8, 'p' as u8, 'l' as u8, 'o' as u8, 'a' as u8, 'd' as u8]
}

/// `"uploads"`
pub open spec fn spec_uploads_dir() -> Seq<u8> {
    seq!['u' as u8, 'p' as u8, 'l' as u8, 'o' as u8, 'a' as u8, 'd' as u8, 's' as u8]
}

/// `"uploads"`
pub fn uploads_dir() -> (r: Vec<u8>)
    ensures
        r@ == spec_uploads_dir(),
{
    vec!['u' as u8, 'p' as u8, 'l' as u8, 'o' as u8, 'a' as u8, 'd' as u8, 's' as u8]
}

/// `"upload-"`
pub open spec fn spec_upload_dash() -> Seq<u8> {
    seq!['u' as u8, 'p' as u8, 'l' as u8, 'o' as u8, 'a' as u8, 'd' as u8, '-' as u8]
}

/// `"upload-"`
pub fn upload_dash() -> (r: Vec<u8>)
    ensures
        r@ == spec_upload_dash(),
{
    vec!['u' as u8, 'p' as u8, 'l' as u8, 'o' as u8, 'a' as u8, 'd' as u8, '-' as u8]
}

/// `".bin"`
pub open spec fn spec_dot_bin() -> Seq<u8> {
    seq!['.' as u8, 'b' as u8, 'i' as u8, 'n' as u8]
}

/// `".bin"`
pub fn dot_bin() -> (r: Vec<u8>)
    ensures
        r@ == spec_dot_bin(),
{
    vec!['.' as u8, 'b' as u8, 'i' as u8, 'n' as u8]
}

/// `"upload.bin"`
pub open spec fn spec_upload_bin() -> Seq<u8> {
    seq!['u' as u8, 'p' as u8, 'l' as u8, 'o' as u8, 'a' as u8, 'd' as u8, '.' as u8, 'b' as u8, 'i' as u8, 'n' as u8]
}

/// `"upload.bin"`
pub fn upload_bin() -> (r: Vec<u8>)
    ensures
        r@ == spec_upload_bin(),
{
    vec!['u' as u8, 'p' as u8, 'l' as u8, 'o' as u8, 'a' as u8, 'd' as u8, '.' as u8, 'b' as u8, 'i' as u8, 'n' as u8]
}

/// `"index.html"`
pub open spec fn spec_index_html() -> Seq<u8> {
    seq!['i' as u8, 'n' as u8, 'd' as u8, 'e' as u8, 'x' as u8, '.' as u8, 'h' as u8, 't' as u8, 'm' as u8, 'l' as u8]
}

/// `"index.html"`
pub fn index_html() -> (r: Vec<u8>)
    ensures
        r@ == spec_index_html(),
{
    vec!['i' as u8, 'n' as u8, 'd' as u8, 'e' as u8, 'x' as u8, '.' as u8, 'h' as u8, 't' as u8, 'm' as u8, 'l' as u8]
}

/// `".py"`
pub open spec fn spec_dot_py() -> Seq<u8> {
    seq!['.' as u8, 'p' as u8, 'y' as u8]
}

/// `".py"`
pub fn dot_py() -> (r: Vec<u8>)
    ensures
        r@ == spec_dot_py(),
{
    vec!['.' as u8, 'p' as u8, 'y' as u8]
}

/// `".sh"`
pub open spec fn spec_dot_sh() -> Seq<u8> {
    seq!['.' as u8, 's' as u8, 'h' as u8]
}

/// `".sh"`
pub fn dot_sh() -> (r: Vec<u8>)
    ensures
        r@ == spec_dot_sh(),
{
    vec!['.' as u8, 's' as u8, 'h' as u8]
}

/// `"Status"`
pub open spec fn spec_status_word() -> Seq<u8> {
    seq!['S' as u8, 't' as u8, 'a' as u8, 't' as u8, 'u' as u8, 's' as u8]
}

/// `"Status"`
pub fn status_word() -> (r: Vec<u8>)
    ensures
        r@ == spec_status_word(),
{
    vec!['S' as u8, 't' as u8, 'a' as u8, 't' as u8, 'u' as u8, 's' as u8]
}

/// `"HTTP_"`
pub open spec fn spec_http_env_prefix() -> Seq<u8> {
    seq!['H' as u8, 'T' as u8, 'T' as u8, 'P' as u8, '_' as u8]
}

/// `"HTTP_"`
pub fn http_env_prefix() -> (r: Vec<u8>)
    ensures
        r@ == spec_http_env_prefix(),
{
    vec!['H' as u8, 'T' as u8, 'T' as u8, 'P' as u8, '_' as u8]
}

/// `"REQUEST_METHOD"`
pub open spec fn spec_request_method() -> Seq<u8> {
    seq!['R' as u8, 'E' as u8, 'Q' as u8, 'U' as u8, 'E' as u8, 'S' as u8, 'T' as u8, '_' as u8, 'M' as u8, 'E' as u8, 'T' as u8, 'H' as u8, 'O' as u8, 'D' as u8]
}

/// `"REQUEST_METHOD"`
pub fn request_method() -> (r: Vec<u8>)
    ensures
        r@ == spec_request_method(),
{
    vec!['R' as u8, 'E' as u8, 'Q' as u8, 'U' as u8, 'E' as u8, 'S' as u8, 'T' as u8, '_' as u8, 'M' as u8, 'E' as u8, 'T' as u8, 'H' as u8, 'O' as u8, 'D' as u8]
}

/// `"SCRIPT_NAME"`
pub open spec fn spec_script_name() -> Seq<u8> {
    seq!['S' as u8, 'C' as u8, 'R' as u8, 'I' as u8, 'P' as u8, 'T' as u8, '_' as u8, 'N' as u8, 'A' as u8, 'M' as u8, 'E' as u8]
}

/// `"SCRIPT_NAME"`
pub fn script_name() -> (r: Vec<u8>)
    ensures
        r@ == spec_script_name(),
{
    vec!['S' as u8, 'C' as u8, 'R' as u8, 'I' as u8, 'P' as u8, 'T' as u8, '_' as u8, 'N' as u8, 'A' as u8, 'M' as u8, 'E' as u8]
}

/// `"PATH_INFO"`
pub open spec fn spec_path_info() -> Seq<u8> {
    seq!['P' as u8, 'A' as u8, 'T' as u8, 'H' as u8, '_' as u8, 'I' as u8, 'N' as u8, 'F' as u8, 'O' as u8]
}

/// `"PATH_INFO"`
pub fn path_info() -> (r: Vec<u8>)
    ensures
        r@ == spec_path_info(),
{
    vec!['P' as u8, 'A' as u8, 'T' as u8, 'H' as u8, '_' as u8, 'I' as u8, 'N' as u8, 'F' as u8, 'O' as u8]
}

/// `"CONTENT_LENGTH"`
pub open spec fn spec_content_length_env() -> Seq<u8> {
    seq!['C' as u8, 'O' as u8, 'N' as u8, 'T' as u8, 'E' as u8, 'N' as u8, 'T' as u8, '_' as u8, 'L' as u8, 'E' as u8, 'N' as u8, 'G' as u8, 'T' as u8, 'H' as u8]
}

/// `"CONTENT_LENGTH"`
pub fn content_length_env() -> (r: Vec<u8>)
    ensures
        r@ == spec_content_length_env(),
{
    vec!['C' as u8, 'O' as u8, 'N' as u8, 'T' as u8, 'E' as u8, 'N' as u8, 'T' as u8, '_' as u8, 'L' as u8, 'E' as u8, 'N' as u8, 'G' as u8, 'T' as u8, 'H' as u8]
}

/// `"SERVER_PROTOCOL"`
pub open spec fn spec_server_protocol() -> Seq<u8> {
    seq!['S' as u8, 'E' as u8, 'R' as u8, 'V' as u8, 'E' as u8, 'R' as u8, '_' as u8, 'P' as u8, 'R' as u8, 'O' as u8, 'T' as u8, 'O' as u8, 'C' as u8, 'O' as u8, 'L' as u8]
}

/// `"SERVER_PROTOCOL"`
pub fn server_protocol() -> (r: Vec<u8>)
    ensures
        r@ == spec_server_protocol(),
{
    vec!['S' as u8, 'E' as u8, 'R' as u8, 'V' as u8, 'E' as u8, 'R' as u8, '_' as u8, 'P' as u8, 'R' as u8, 'O' as u8, 'T' as u8, 'O' as u8, 'C' as u8, 'O' as u8, 'L' as u8]
}

/// `"GATEWAY_INTERFACE"`
pub open spec fn spec_gateway_interface() -> Seq<u8> {
    seq!['G' as u8, 'A' as u8, 'T' as u8, 'E' as u8, 'W' as u8, 'A' as u8, 'Y' as u8, '_' as u8, 'I' as u8, 'N' as u8, 'T' as u8, 'E' as u8, 'R' as u8, 'F' as u8, 'A' as u8, 'C' as u8, 'E' as u8]
}

/// `"GATEWAY_INTERFACE"`
pub fn gateway_interface() -> (r: Vec<u8>)
    ensures
        r@ == spec_gateway_interface(),
{
    vec!['G' as u8, 'A' as u8, 'T' as u8, 'E' as u8, 'W' as u8, 'A' as u8, 'Y' as u8, '_' as u8, 'I' as u8, 'N' as u8, 'T' as u8, 'E' as u8, 'R' as u8, 'F' as u8, 'A' as u8, 'C' as u8, 'E' as u8]
}

/// `"CGI/1.1"`
pub open spec fn spec_cgi_slash_11() -> Seq<u8> {
    seq!['C' as u8, 'G' as u8, 'I' as u8, '/' as u8, '1' as u8, '.' as u8, '1' as u8]
}

/// `"CGI/1.1"`
pub fn cgi_slash_11() -> (r: Vec<u8>)
    ensures
        r@ == spec_cgi_slash_11(),
{
    vec!['C' as u8, 'G' as u8, 'I' as u8, '/' as u8, '1' as u8, '.' as u8, '1' as u8]
}

/// `"QUERY_STRING"`
pub open spec fn spec_query_string() -> Seq<u8> {
    seq!['Q' as u8, 'U' as u8, 'E' as u8, 'R' as u8, 'Y' as u8, '_' as u8, 'S' as u8, 'T' as u8, 'R' as u8, 'I' as u8, 'N' as u8, 'G' as u8]
}

/// `"QUERY_STRING"`
pub fn query_string() -> (r: Vec<u8>)
    ensures
        r@ == spec_query_string(),
{
    vec!['Q' as u8, 'U' as u8, 'E' as u8, 'R' as u8, 'Y' as u8, '_' as u8, 'S' as u8, 'T' as u8, 'R' as u8, 'I' as u8, 'N' as u8, 'G' as u8]
}

/// `"CONTENT_TYPE"`
pub open spec fn spec_content_type_env() -> Seq<u8> {
    seq!['C' as u8, 'O' as u8, 'N' as u8, 'T' as u8, 'E' as u8, 'N' as u8, 'T' as u8, '_' as u8, 'T' as u8, 'Y' as u8, 'P' as u8, 'E' as u8]
}

/// `"CONTENT_TYPE"`
pub fn content_type_env() -> (r: Vec<u8>)
    ensures
        r@ == spec_content_type_env(),
{
    vec!['C' as u8, 'O' as u8, 'N' as u8, 'T' as u8, 'E' as u8, 'N' as u8, 'T' as u8, '_' as u8, 'T' as u8, 'Y' as u8, 'P' as u8, 'E' as u8]
}

/// `"text/plain; charset=utf-8"`
pub open spec fn spec_text_plain_utf8() -> Seq<u8> {
    seq!['t' as u8, 'e' as u8, 'x' as u8, 't' as u8, '/' as u8, 'p' as u8, 'l' as u8, 'a' as u8, 'i' as u8, 'n' as u8, ';' as u8, ' ' as u8, 'c' as u8, 'h' as u8, 'a' as u8, 'r' as u8, 's' as u8, 'e' as u8, 't' as u8, '=' as u8, 'u' as u8, 't' as u8, 'f' as u8, '-' as u8, '8' as u8]
}

/// `"text/plain; charset=utf-8"`
pub fn text_plain_utf8() -> (r: Vec<u8>)
    ensures
        r@ == spec_text_plain_utf8(),
{
    vec!['t' as u8, 'e' as u8, 'x' as u8, 't' as u8, '/' as u8, 'p' as u8, 'l' as u8, 'a' as u8, 'i' as u8, 'n' as u8, ';' as u8, ' ' as u8, 'c' as u8, 'h' as u8, 'a' as u8, 'r' as u8, 's' as u8, 'e' as u8, 't' as u8, '=' as u8, 'u' as u8, 't' as u8, 'f' as u8, '-' as u8, '8' as u8]
}

/// `"text/html"`
pub open spec fn spec_text_html() -> Seq<u8> {
    seq!['t' as u8, 'e' as u8, 'x' as u8, 't' as u8, '/' as u8, 'h' as u8, 't' as u8, 'm' as u8, 'l' as u8]
}

/// `"text/html"`
pub fn text_html() -> (r: Vec<u8>)
    ensures
        r@ == spec_text_html(),
{
    vec!['t' as u8, 'e' as u8, 'x' as u8, 't' as u8, '/' as u8, 'h' as u8, 't' as u8, 'm' as u8, 'l' as u8]
}

/// `"text/css"`
pub open spec fn spec_text_css() -> Seq<u8> {
    seq!['t' as u8, 'e' as u8, 'x' as u8, 't' as u8, '/' as u8, 'c' as u8, 's' as u8, 's' as u8]
}

/// `"text/css"`
pub fn text_css() -> (r: Vec<u8>)
    ensures
        r@ == spec_text_css(),
{
    vec!['t' as u8, 'e' as u8, 'x' as u8, 't' as u8, '/' as u8, 'c' as u8, 's' as u8, 's' as u8]
}

/// `"application/javascript"`
pub open spec fn spec_application_javascript() -> Seq<u8> {
    seq!['a' as u8, 'p' as u8, 'p' as u8, 'l' as u8, 'i' as u8, 'c' as u8, 'a' as u8, 't' as u8, 'i' as u8, 'o' as u8, 'n' as u8, '/' as u8, 'j' as u8, 'a' as u8, 'v' as u8, 'a' as u8, 's' as u8, 'c' as u8, 'r' as u8, 'i' as u8, 'p' as u8, 't' as u8]
}

/// `"application/javascript"`
pub fn application_javascript() -> (r: Vec<u8>)
    ensures
        r@ == spec_application_javascript(),
{
    vec!['a' as u8, 'p' as u8, 'p' as u8, 'l' as u8, 'i' as u8, 'c' as u8, 'a' as u8, 't' as u8, 'i' as u8, 'o' as u8, 'n' as u8, '/' as u8, 'j' as u8, 'a' as u8, 'v' as u8, 'a' as u8, 's' as u8, 'c' as u8, 'r' as u8, 'i' as u8, 'p' as u8, 't' as u8]
}

/// `"application/json"`
pub open spec fn spec_application_json() -> Seq<u8> {
    seq!['a' as u8, 'p' as u8, 'p' as u8, 'l' as u8, 'i' as u8, 'c' as u8, 'a' as u8, 't' as u8, 'i' as u8, 'o' as u8, 'n' as u8, '/' as u8, 'j' as u8, 's' as u8, 'o' as u8, 'n' as u8]
}

/// `"application/json"`
pub fn application_json() -> (r: Vec<u8>)
    ensures
        r@ == spec_application_json(),
{
    vec!['a' as u8, 'p' as u8, 'p' as u8, 'l' as u8, 'i' as u8, 'c' as u8, 'a' as u8, 't' as u8, 'i' as u8, 'o' as u8, 'n' as u8, '/' as u8, 'j' as u8, 's' as u8, 'o' as u8, 'n' as u8]
}

/// `"image/png"`
pub open spec fn spec_image_png() -> Seq<u8> {
    seq!['i' as u8, 'm' as u8, 'a' as u8, 'g' as u8, 'e' as u8, '/' as u8, 'p' as u8, 'n' as u8, 'g' as u8]
}

/// `"image/png"`
pub fn image_png() -> (r: Vec<u8>)
    ensures
        r@ == spec_image_png(),
{
    vec!['i' as u8, 'm' as u8, 'a' as u8, 'g' as u8, 'e' as u8, '/' as u8, 'p' as u8, 'n' as u8, 'g' as u8]
}

/// `"image/jpeg"`
pub open spec fn spec_image_jpeg() -> Seq<u8> {
    seq!['i' as u8, 'm' as u8, 'a' as u8, 'g' as u8, 'e' as u8, '/' as u8, 'j' as u8, 'p' as u8, 'e' as u8, 'g' as u8]
}

/// `"image/jpeg"`
pub fn image_jpeg() -> (r: Vec<u8>)
    ensures
        r@ == spec_image_jpeg(),
{
    vec!['i' as u8, 'm' as u8, 'a' as u8, 'g' as u8, 'e' as u8, '/' as u8, 'j' as u8, 'p' as u8, 'e' as u8, 'g' as u8]
}

/// `"image/gif"`
pub open spec fn spec_image_gif() -> Seq<u8> {
    seq!['i' as u8, 'm' as u8, 'a' as u8, 'g' as u8, 'e' as u8, '/' as u8, 'g' as u8, 'i' as u8, 'f' as u8]
}

/// `"image/gif"`
pub fn image_gif() -> (r: Vec<u8>)
    ensures
        r@ == spec_image_gif(),
{
    vec!['i' as u8, 'm' as u8, 'a' as u8, 'g' as u8, 'e' as u8, '/' as u8, 'g' as u8, 'i' as u8, 'f' as u8]
}

/// `"text/plain"`
pub open spec fn spec_text_plain() -> Seq<u8> {
    seq!['t' as u8, 'e' as u8, 'x' as u8, 't' as u8, '/' as u8, 'p' as u8, 'l' as u8, 'a' as u8, 'i' as u8, 'n' as u8]
}

/// `"text/plain"`
pub fn text_plain() -> (r: Vec<u8>)
    ensures
        r@ == spec_text_plain(),
{
    vec!['t' as u8, 'e' as u8, 'x' as u8, 't' as u8, '/' as u8, 'p' as u8, 'l' as u8, 'a' as u8, 'i' as u8, 'n' as u8]
}

/// `"application/octet-stream"`
pub open spec fn spec_application_octet_stream() -> Seq<u8> {
    seq!['a' as u8, 'p' as u8, 'p' as u8, 'l' as u8, 'i' as u8, 'c' as u8, 'a' as u8, 't' as u8, 'i' as u8, 'o' as u8, 'n' as u8, '/' as u8, 'o' as u8, 'c' as u8, 't' as u8, 'e' as u8, 't' as u8, '-' as u8, 's' as u8, 't' as u8, 'r' as u8, 'e' as u8, 'a' as u8, 'm' as u8]
}

/// `"application/octet-stream"`
pub fn application_octet_stream() -> (r: Vec<u8>)
    ensures
        r@ == spec_application_octet_stream(),
{
    vec!['a' as u8, 'p' as u8, 'p' as u8, 'l' as u8, 'i' as u8, 'c' as u8, 'a' as u8, 't' as u8, 'i' as u8, 'o' as u8, 'n' as u8, '/' as u8, 'o' as u8, 'c' as u8, 't' as u8, 'e' as u8, 't' as u8, '-' as u8, 's' as u8, 't' as u8, 'r' as u8, 'e' as u8, 'a' as u8, 'm' as u8]
}

/// `".html"`
pub open spec fn spec_dot_html() -> Seq<u8> {
    seq!['.' as u8, 'h' as u8, 't' as u8, 'm' as u8, 'l' as u8]
}

/// `".html"`
pub fn dot_html() -> (r: Vec<u8>)
    ensures
        r@ == spec_dot_html(),
{
    vec!['.' as u8, 'h' as u8, 't' as u8, 'm' as u8, 'l' as u8]
}

/// `".css"`
pub open spec fn spec_dot_css() -> Seq<u8> {
    seq!['.' as u8, 'c' as u8, 's' as u8, 's' as u8]
}

/// `".css"`
pub fn dot_css() -> (r: Vec<u8>)
    ensures
        r@ == spec_dot_css(),
{
    vec!['.' as u8, 'c' as u8, 's' as u8, 's' as u8]
}

/// `".js"`
pub open spec fn spec_dot_js() -> Seq<u8> {
    seq!['.' as u8, 'j' as u8, 's' as u8]
}

/// `".js"`
pub fn dot_js() -> (r: Vec<u8>)
    ensures
        r@ == spec_dot_js(),
{
    vec!['.' as u8, 'j' as u8, 's' as u8]
}

/// `".json"`
pub open spec fn spec_dot_json() -> Seq<u8> {
    seq!['.' as u8, 'j' as u8, 's' as u8, 'o' as u8, 'n' as u8]
}

/// `".json"`
pub fn dot_json() -> (r: Vec<u8>)
    ensures
        r@ == spec_dot_json(),
{
    vec!['.' as u8, 'j' as u8, 's' as u8, 'o' as u8, 'n' as u8]
}

/// `".png"`
pub open spec fn spec_dot_png() -> Seq<u8> {
    seq!['.' as u8, 'p' as u8, 'n' as u8, 'g' as u8]
}

/// `".png"`
pub fn dot_png() -> (r: Vec<u8>)
    ensures
        r@ == spec_dot_png(),
{
    vec!['.' as u8, 'p' as u8, 'n' as u8, 'g' as u8]
}

/// `".jpg"`
pub open spec fn spec_dot_jpg() -> Seq<u8> {
    seq!['.' as u8, 'j' as u8, 'p' as u8, 'g' as u8]
}

/// `".jpg"`
pub fn dot_jpg() -> (r: Vec<u8>)
    ensures
        r@ == spec_dot_jpg(),
{
    vec!['.' as u8, 'j' as u8, 'p' as u8, 'g' as u8]
}

/// `".jpeg"`
pub open spec fn spec_dot_jpeg() -> Seq<u8> {
    seq!['.' as u8, 'j' as u8, 'p' as u8, 'e' as u8, 'g' as u8]
}

/// `".jpeg"`
pub fn dot_jpeg() -> (r: Vec<u8>)
    ensures
        r@ == spec_dot_jpeg(),
{
    vec!['.' as u8, 'j' as u8, 'p' as u8, 'e' as u8, 'g' as u8]
}

/// `".gif"`
pub open spec fn spec_dot_gif() -> Seq<u8> {
    seq!['.' as u8, 'g' as u8, 'i' as u8, 'f' as u8]
}

/// `".gif"`
pub fn dot_gif() -> (r: Vec<u8>)
    ensures
        r@ == spec_dot_gif(),
{
    vec!['.' as u8, 'g' as u8, 'i' as u8, 'f' as u8]
}

/// `".txt"`
pub open spec fn spec_dot_txt() -> Seq<u8> {
    seq!['.' as u8, 't' as u8, 'x' as u8, 't' as u8]
}

/// `".txt"`
pub fn dot_txt() -> (r: Vec<u8>)
    ensures
        r@ == spec_dot_txt(),
{
    vec!['.' as u8, 't' as u8, 'x' as u8, 't' as u8]
}

/// `"OK"`
pub open spec fn spec_status_ok() -> Seq<u8> {
    seq!['O' as u8, 'K' as u8]
}

/// `"OK"`
pub fn status_ok() -> (r: Vec<u8>)
    ensures
        r@ == spec_status_ok(),
{
    vec!['O' as u8, 'K' as u8]
}

/// `"Not Found"`
pub open spec fn spec_status_not_found() -> Seq<u8> {
    seq!['N' as u8, 'o' as u8, 't' as u8, ' ' as u8, 'F' as u8, 'o' as u8, 'u' as u8, 'n' as u8, 'd' as u8]
}

/// `"Not Found"`
pub fn status_not_found() -> (r: Vec<u8>)
    ensures
        r@ == spec_status_not_found(),
{
    vec!['N' as u8, 'o' as u8, 't' as u8, ' ' as u8, 'F' as u8, 'o' as u8, 'u' as u8, 'n' as u8, 'd' as u8]
}

/// `"Bad Request"`
pub open spec fn spec_status_bad_request() -> Seq<u8> {
    seq!['B' as u8, 'a' as u8, 'd' as u8, ' ' as u8, 'R' as u8, 'e' as u8, 'q' as u8, 'u' as u8, 'e' as u8, 's' as u8, 't' as u8]
}

/// `"Bad Request"`
pub fn status_bad_request() -> (r: Vec<u8>)
    ensures
        r@ == spec_status_bad_request(),
{
    vec!['B' as u8, 'a' as u8, 'd' as u8, ' ' as u8, 'R' as u8, 'e' as u8, 'q' as u8, 'u' as u8, 'e' as u8, 's' as u8, 't' as u8]
}

/// `"Method Not Allowed"`
pub open spec fn spec_status_method_not_allowed() -> Seq<u8> {
    seq!['M' as u8, 'e' as u8, 't' as u8, 'h' as u8, 'o' as u8, 'd' as u8, ' ' as u8, 'N' as u8, 'o' as u8, 't' as u8, ' ' as u8, 'A' as u8, 'l' as u8, 'l' as u8, 'o' as u8, 'w' as u8, 'e' as u8, 'd' as u8]
}

/// `"Method Not Allowed"`
pub fn status_method_not_allowed() -> (r: Vec<u8>)
    ensures
        r@ == spec_status_method_not_allowed(),
{
    vec!['M' as u8, 'e' as u8, 't' as u8, 'h' as u8, 'o' as u8, 'd' as u8, ' ' as u8, 'N' as u8, 'o' as u8, 't' as u8, ' ' as u8, 'A' as u8, 'l' as u8, 'l' as u8, 'o' as u8, 'w' as u8, 'e' as u8, 'd' as u8]
}

/// `"Forbidden"`
pub open spec fn spec_status_forbidden() -> Seq<u8> {
    seq!['F' as u8, 'o' as u8, 'r' as u8, 'b' as u8, 'i' as u8, 'd' as u8, 'd' as u8, 'e' as u8, 'n' as u8]
}

/// `"Forbidden"`
pub fn status_forbidden() -> (r: Vec<u8>)
    ensures
        r@ == spec_status_forbidden(),
{
    vec!['F' as u8, 'o' as u8, 'r' as u8, 'b' as u8, 'i' as u8, 'd' as u8, 'd' as u8, 'e' as u8, 'n' as u8]
}

/// `"Internal Server Error"`
pub open spec fn spec_status_internal_error() -> Seq<u8> {
    seq!['I' as u8, 'n' as u8, 't' as u8, 'e' as u8, 'r' as u8, 'n' as u8, 'a' as u8, 'l' as u8, ' ' as u8, 'S' as u8, 'e' as u8, 'r' as u8, 'v' as u8, 'e' as u8, 'r' as u8, ' ' as u8, 'E' as u8, 'r' as u8, 'r' as u8, 'o' as u8, 'r' as u8]
}

/// `"Internal Server Error"`
pub fn status_internal_error() -> (r: Vec<u8>)
    ensures
        r@ == spec_status_internal_error(),
{
    vec!['I' as u8, 'n' as u8, 't' as u8, 'e' as u8, 'r' as u8, 'n' as u8, 'a' as u8, 'l' as u8, ' ' as u8, 'S' as u8, 'e' as u8, 'r' as u8, 'v' as u8, 'e' as u8, 'r' as u8, ' ' as u8, 'E' as u8, 'r' as u8, 'r' as u8, 'o' as u8, 'r' as u8]
}

/// `"Payload Too Large"`
pub open spec fn spec_status_payload_too_large() -> Seq<u8> {
    seq!['P' as u8, 'a' as u8, 'y' as u8, 'l' as u8, 'o' as u8, 'a' as u8, 'd' as u8, ' ' as u8, 'T' as u8, 'o' as u8, 'o' as u8, ' ' as u8, 'L' as u8, 'a' as u8, 'r' as u8, 'g' as u8, 'e' as u8]
}

/// `"Payload Too Large"`
pub fn status_payload_too_large() -> (r: Vec<u8>)
    ensures
        r@ == spec_status_payload_too_large(),
{
    vec!['P' as u8, 'a' as u8, 'y' as u8, 'l' as u8, 'o' as u8, 'a' as u8, 'd' as u8, ' ' as u8, 'T' as u8, 'o' as u8, 'o' as u8, ' ' as u8, 'L' as u8, 'a' as u8, 'r' as u8, 'g' as u8, 'e' as u8]
}

/// `"Found"`
pub open spec fn spec_status_found() -> Seq<u8> {
    seq!['F' as u8, 'o' as u8, 'u' as u8, 'n' as u8, 'd' as u8]
}

/// `"Found"`
pub fn status_found() -> (r: Vec<u8>)
    ensures
        r@ == spec_status_found(),
{
    vec!['F' as u8, 'o' as u8, 'u' as u8, 'n' as u8, 'd' as u8]
}

/// `"Gateway Timeout"`
pub open spec fn spec_status_gateway_timeout() -> Seq<u8> {
    seq!['G' as u8, 'a' as u8, 't' as u8, 'e' as u8, 'w' as u8, 'a' as u8, 'y' as u8, ' ' as u8, 'T' as u8, 'i' as u8, 'm' as u8, 'e' as u8, 'o' as u8, 'u' as u8, 't' as u8]
}

/// `"Gateway Timeout"`
pub fn status_gateway_timeout() -> (r: Vec<u8>)
    ensures
        r@ == spec_status_gateway_timeout(),
{
    vec!['G' as u8, 'a' as u8, 't' as u8, 'e' as u8, 'w' as u8, 'a' as u8, 'y' as u8, ' ' as u8, 'T' as u8, 'i' as u8, 'm' as u8, 'e' as u8, 'o' as u8, 'u' as u8, 't' as u8]
}

/// `"<h1>"`
pub open spec fn spec_h1_open() -> Seq<u8> {
    seq!['<' as u8, 'h' as u8, '1' as u8, '>' as u8]
}

/// `"<h1>"`
pub fn h1_open() -> (r: Vec<u8>)
    ensures
        r@ == spec_h1_open(),
{
    vec!['<' as u8, 'h' as u8, '1' as u8, '>' as u8]
}

/// `"</h1>"`
pub open spec fn spec_h1_close() -> Seq<u8> {
    seq!['<' as u8, '/' as u8, 'h' as u8, '1' as u8, '>' as u8]
}

/// `"</h1>"`
pub fn h1_close() -> (r: Vec<u8>)
    ensures
        r@ == spec_h1_close(),
{
    vec!['<' as u8, '/' as u8, 'h' as u8, '1' as u8, '>' as u8]
}

/// `" - "`
pub open spec fn spec_sp_dash_sp() -> Seq<u8> {
    seq![' ' as u8, '-' as u8, ' ' as u8]
}

/// `" - "`
pub fn sp_dash_sp() -> (r: Vec<u8>)
    ensures
        r@ == spec_sp_dash_sp(),
{
    vec![' ' as u8, '-' as u8, ' ' as u8]
}

/// `"<!DOCTYPE html><html><body><h1>"`
pub open spec fn spec_doctype_h1_open() -> Seq<u8> {
    seq!['<' as u8, '!' as u8, 'D' as u8, 'O' as u8, 'C' as u8, 'T' as u8, 'Y' as u8, 'P' as u8, 'E' as u8, ' ' as u8, 'h' as u8, 't' as u8, 'm' as u8, 'l' as u8, '>' as u8, '<' as u8, 'h' as u8, 't' as u8, 'm' as u8, 'l' as u8, '>' as u8, '<' as u8, 'b' as u8, 'o' as u8, 'd' as u8, 'y' as u8, '>' as u8, '<' as u8, 'h' as u8, '1' as u8, '>' as u8]
}

/// `"<!DOCTYPE html><html><body><h1>"`
pub fn doctype_h1_open() -> (r: Vec<u8>)
    ensures
        r@ == spec_doctype_h1_open(),
{
    vec!['<' as u8, '!' as u8, 'D' as u8, 'O' as u8, 'C' as u8, 'T' as u8, 'Y' as u8, 'P' as u8, 'E' as u8, ' ' as u8, 'h' as u8, 't' as u8, 'm' as u8, 'l' as u8, '>' as u8, '<' as u8, 'h' as u8, 't' as u8, 'm' as u8, 'l' as u8, '>' as u8, '<' as u8, 'b' as u8, 'o' as u8, 'd' as u8, 'y' as u8, '>' as u8, '<' as u8, 'h' as u8, '1' as u8, '>' as u8]
}

/// `"</h1></body></html>"`
pub open spec fn spec_h1_body_html_close() -> Seq<u8> {
    seq!['<' as u8, '/' as u8, 'h' as u8, '1' as u8, '>' as u8, '<' as u8, '/' as u8, 'b' as u8, 'o' as u8, 'd' as u8, 'y' as u8, '>' as u8, '<' as u8, '/' as u8, 'h' as u8, 't' as u8, 'm' as u8, 'l' as u8, '>' as u8]
}

/// `"</h1></body></html>"`
pub fn h1_body_html_close() -> (r: Vec<u8>)
    ensures
        r@ == spec_h1_body_html_close(),
{
    vec!['<' as u8, '/' as u8, 'h' as u8, '1' as u8, '>' as u8, '<' as u8, '/' as u8, 'b' as u8, 'o' as u8, 'd' as u8, 'y' as u8, '>' as u8, '<' as u8, '/' as u8, 'h' as u8, 't' as u8, 'm' as u8, 'l' as u8, '>' as u8]
}

/// `"<h1>Index of "`
pub open spec fn spec_index_of_h1() -> Seq<u8> {
    seq!['<' as u8, 'h' as u8, '1' as u8, '>' as u8, 'I' as u8, 'n' as u8, 'd' as u8, 'e' as u8, 'x' as u8, ' ' as u8, 'o' as u8, 'f' as u8, ' ' as u8]
}

/// `"<h1>Index of "`
pub fn index_of_h1() -> (r: Vec<u8>)
    ensures
        r@ == spec_index_of_h1(),
{
    vec!['<' as u8, 'h' as u8, '1' as u8, '>' as u8, 'I' as u8, 'n' as u8, 'd' as u8, 'e' as u8, 'x' as u8, ' ' as u8, 'o' as u8, 'f' as u8, ' ' as u8]
}

/// `"<ul>"`
pub open spec fn spec_ul_open() -> Seq<u8> {
    seq!['<' as u8, 'u' as u8, 'l' as u8, '>' as u8]
}

/// `"<ul>"`
pub fn ul_open() -> (r: Vec<u8>)
    ensures
        r@ == spec_ul_open(),
{
    vec!['<' as u8, 'u' as u8, 'l' as u8, '>' as u8]
}

/// `"</ul>"`
pub open spec fn spec_ul_close() -> Seq<u8> {
    seq!['<' as u8, '/' as u8, 'u' as u8, 'l' as u8, '>' as u8]
}

/// `"</ul>"`
pub fn ul_close() -> (r: Vec<u8>)
    ensures
        r@ == spec_ul_close(),
{
    vec!['<' as u8, '/' as u8, 'u' as u8, 'l' as u8, '>' as u8]
}

/// `"<li><a href=""`
pub open spec fn spec_li_anchor_open() -> Seq<u8> {
    seq!['<' as u8, 'l' as u8, 'i' as u8, '>' as u8, '<' as u8, 'a' as u8, ' ' as u8, 'h' as u8, 'r' as u8, 'e' as u8, 'f' as u8, '=' as u8, '"' as u8]
}

/// `"<li><a href=""`
pub fn li_anchor_open() -> (r: Vec<u8>)
    ensures
        r@ == spec_li_anchor_open(),
{
    vec!['<' as u8, 'l' as u8, 'i' as u8, '>' as u8, '<' as u8, 'a' as u8, ' ' as u8, 'h' as u8, 'r' as u8, 'e' as u8, 'f' as u8, '=' as u8, '"' as u8]
}

/// `"">"`
pub open spec fn spec_quote_gt() -> Seq<u8> {
    seq!['"' as u8, '>' as u8]
}

/// `"">"`
pub fn quote_gt() -> (r: Vec<u8>)
    ensures
        r@ == spec_quote_gt(),
{
    vec!['"' as u8, '>' as u8]
}

/// `"</a></li>"`
pub open spec fn spec_anchor_li_close() -> Seq<u8> {
    seq!['<' as u8, '/' as u8, 'a' as u8, '>' as u8, '<' as u8, '/' as u8, 'l' as u8, 'i' as u8, '>' as u8]
}

/// `"</a></li>"`
pub fn anchor_li_close() -> (r: Vec<u8>)
    ensures
        r@ == spec_anchor_li_close(),
{
    vec!['<' as u8, '/' as u8, 'a' as u8, '>' as u8, '<' as u8, '/' as u8, 'l' as u8, 'i' as u8, '>' as u8]
}

/// `"File '"`
pub open spec fn spec_file_quote() -> Seq<u8> {
    seq!['F' as u8, 'i' as u8, 'l' as u8, 'e' as u8, ' ' as u8, '\'' as u8]
}

/// `"File '"`
pub fn file_quote() -> (r: Vec<u8>)
    ensures
        r@ == spec_file_quote(),
{
    vec!['F' as u8, 'i' as u8, 'l' as u8, 'e' as u8, ' ' as u8, '\'' as u8]
}

/// `"' uploaded successfully"`
pub open spec fn spec_uploaded_ok() -> Seq<u8> {
    seq!['\'' as u8, ' ' as u8, 'u' as u8, 'p' as u8, 'l' as u8, 'o' as u8, 'a' as u8, 'd' as u8, 'e' as u8, 'd' as u8, ' ' as u8, 's' as u8, 'u' as u8, 'c' as u8, 'c' as u8, 'e' as u8, 's' as u8, 's' as u8, 'f' as u8, 'u' as u8, 'l' as u8, 'l' as u8, 'y' as u8]
}

/// `"' uploaded successfully"`
pub fn uploaded_ok() -> (r: Vec<u8>)
    ensures
        r@ == spec_uploaded_ok(),
{
    vec!['\'' as u8, ' ' as u8, 'u' as u8, 'p' as u8, 'l' as u8, 'o' as u8, 'a' as u8, 'd' as u8, 'e' as u8, 'd' as u8, ' ' as u8, 's' as u8, 'u' as u8, 'c' as u8, 'c' as u8, 'e' as u8, 's' as u8, 's' as u8, 'f' as u8, 'u' as u8, 'l' as u8, 'l' as u8, 'y' as u8]
}

/// `"File deleted successfully"`
pub open spec fn spec_file_deleted() -> Seq<u8> {
    seq!['F' as u8, 'i' as u8, 'l' as u8, 'e' as u8, ' ' as u8, 'd' as u8, 'e' as u8, 'l' as u8, 'e' as u8, 't' as u8, 'e' as u8, 'd' as u8, ' ' as u8, 's' as u8, 'u' as u8, 'c' as u8, 'c' as u8, 'e' as u8, 's' as u8, 's' as u8, 'f' as u8, 'u' as u8, 'l' as u8, 'l' as u8, 'y' as u8]
}

/// `"File deleted successfully"`
pub fn file_deleted() -> (r: Vec<u8>)
    ensures
        r@ == spec_file_deleted(),
{
    vec!['F' as u8, 'i' as u8, 'l' as u8, 'e' as u8, ' ' as u8, 'd' as u8, 'e' as u8, 'l' as u8, 'e' as u8, 't' as u8, 'e' as u8, 'd' as u8, ' ' as u8, 's' as u8, 'u' as u8, 'c' as u8, 'c' as u8, 'e' as u8, 's' as u8, 's' as u8, 'f' as u8, 'u' as u8, 'l' as u8, 'l' as u8, 'y' as u8]
}

/// `"CGI produced no output"`
pub open spec fn spec_cgi_no_output() -> Seq<u8> {
    seq!['C' as u8, 'G' as u8, 'I' as u8, ' ' as u8, 'p' as u8, 'r' as u8, 'o' as u8, 'd' as u8, 'u' as u8, 'c' as u8, 'e' as u8, 'd' as u8, ' ' as u8, 'n' as u8, 'o' as u8, ' ' as u8, 'o' as u8, 'u' as u8, 't' as u8, 'p' as u8, 'u' as u8, 't' as u8]
}

/// `"CGI produced no output"`
pub fn cgi_no_output() -> (r: Vec<u8>)
    ensures
        r@ == spec_cgi_no_output(),
{
    vec!['C' as u8, 'G' as u8, 'I' as u8, ' ' as u8, 'p' as u8, 'r' as u8, 'o' as u8, 'd' as u8, 'u' as u8, 'c' as u8, 'e' as u8, 'd' as u8, ' ' as u8, 'n' as u8, 'o' as u8, ' ' as u8, 'o' as u8, 'u' as u8, 't' as u8, 'p' as u8, 'u' as u8, 't' as u8]
}

/// `"CGI error: "`
pub open spec fn spec_cgi_error_prefix() -> Seq<u8> {
    seq!['C' as u8, 'G' as u8, 'I' as u8, ' ' as u8, 'e' as u8, 'r' as u8, 'r' as u8, 'o' as u8, 'r' as u8, ':' as u8, ' ' as u8]
}

/// `"CGI error: "`
pub fn cgi_error_prefix() -> (r: Vec<u8>)
    ensures
        r@ == spec_cgi_error_prefix(),
{
    vec!['C' as u8, 'G' as u8, 'I' as u8, ' ' as u8, 'e' as u8, 'r' as u8, 'r' as u8, 'o' as u8, 'r' as u8, ':' as u8, ' ' as u8]
}

/// `"CGI script timed out"`
pub open spec fn spec_cgi_timed_out() -> Seq<u8> {
    seq!['C' as u8, 'G' as u8, 'I' as u8, ' ' as u8, 's' as u8, 'c' as u8, 'r' as u8, 'i' as u8, 'p' as u8, 't' as u8, ' ' as u8, 't' as u8, 'i' as u8, 'm' as u8, 'e' as u8, 'd' as u8, ' ' as u8, 'o' as u8, 'u' as u8, 't' as u8]
}

/// `"CGI script timed out"`
pub fn cgi_timed_out() -> (r: Vec<u8>)
    ensures
        r@ == spec_cgi_timed_out(),
{
    vec!['C' as u8, 'G' as u8, 'I' as u8, ' ' as u8, 's' as u8, 'c' as u8, 'r' as u8, 'i' as u8, 'p' as u8, 't' as u8, ' ' as u8, 't' as u8, 'i' as u8, 'm' as u8, 'e' as u8, 'd' as u8, ' ' as u8, 'o' as u8, 'u' as u8, 't' as u8]
}

/// `"listen"`
pub open spec fn spec_listen_word() -> Seq<u8> {
    seq!['l' as u8, 'i' as u8, 's' as u8, 't' as u8, 'e' as u8, 'n' as u8]
}

/// `"listen"`
pub fn listen_word() -> (r: Vec<u8>)
    ensures
        r@ == spec_listen_word(),
{
    vec!['l' as u8, 'i' as u8, 's' as u8, 't' as u8, 'e' as u8, 'n' as u8]
}

/// `"client_body_size_limit"`
pub open spec fn spec_client_body_size_limit_word() -> Seq<u8> {
    seq!['c' as u8, 'l' as u8, 'i' as u8, 'e' as u8, 'n' as u8, 't' as u8, '_' as u8, 'b' as u8, 'o' as u8, 'd' as u8, 'y' as u8, '_' as u8, 's' as u8, 'i' as u8, 'z' as u8, 'e' as u8, '_' as u8, 'l' as u8, 'i' as u8, 'm' as u8, 'i' as u8, 't' as u8]
}

/// `"client_body_size_limit"`
pub fn client_body_size_limit_word() -> (r: Vec<u8>)
    ensures
        r@ == spec_client_body_size_limit_word(),
{
    vec!['c' as u8, 'l' as u8, 'i' as u8, 'e' as u8, 'n' as u8, 't' as u8, '_' as u8, 'b' as u8, 'o' as u8, 'd' as u8, 'y' as u8, '_' as u8, 's' as u8, 'i' as u8, 'z' as u8, 'e' as u8, '_' as u8, 'l' as u8, 'i' as u8, 'm' as u8, 'i' as u8, 't' as u8]
}

/// `"client_max_body_size"`
pub open spec fn spec_client_max_body_size_word() -> Seq<u8> {
    seq!['c' as u8, 'l' as u8, 'i' as u8, 'e' as u8, 'n' as u8, 't' as u8, '_' as u8, 'm' as u8, 'a' as u8, 'x' as u8, '_' as u8, 'b' as u8, 'o' as u8, 'd' as u8, 'y' as u8, '_' as u8, 's' as u8, 'i' as u8, 'z' as u8, 'e' as u8]
}

/// `"client_max_body_size"`
pub fn client_max_body_size_word() -> (r: Vec<u8>)
    ensures
        r@ == spec_client_max_body_size_word(),
{
    vec!['c' as u8, 'l' as u8, 'i' as u8, 'e' as u8, 'n' as u8, 't' as u8, '_' as u8, 'm' as u8, 'a' as u8, 'x' as u8, '_' as u8, 'b' as u8, 'o' as u8, 'd' as u8, 'y' as u8, '_' as u8, 's' as u8, 'i' as u8, 'z' as u8, 'e' as u8]
}

/// `"error_path"`
pub open spec fn spec_error_path_word() -> Seq<u8> {
    seq!['e' as u8, 'r' as u8, 'r' as u8, 'o' as u8, 'r' as u8, '_' as u8, 'p' as u8, 'a' as u8, 't' as u8, 'h' as u8]
}

/// `"error_path"`
pub fn error_path_word() -> (r: Vec<u8>)
    ensures
        r@ == spec_error_path_word(),
{
    vec!['e' as u8, 'r' as u8, 'r' as u8, 'o' as u8, 'r' as u8, '_' as u8, 'p' as u8, 'a' as u8, 't' as u8, 'h' as u8]
}

/// `"error_dir"`
pub open spec fn spec_error_dir_word() -> Seq<u8> {
    seq!['e' as u8, 'r' as u8, 'r' as u8, 'o' as u8, 'r' as u8, '_' as u8, 'd' as u8, 'i' as u8, 'r' as u8]
}

/// `"error_dir"`
pub fn error_dir_word() -> (r: Vec<u8>)
    ensures
        r@ == spec_error_dir_word(),
{
    vec!['e' as u8, 'r' as u8, 'r' as u8, 'o' as u8, 'r' as u8, '_' as u8, 'd' as u8, 'i' as u8, 'r' as u8]
}

/// `"vhost"`
pub open spec fn spec_vhost_word() -> Seq<u8> {
    seq!['v' as u8, 'h' as u8, 'o' as u8, 's' as u8, 't' as u8]
}

/// `"vhost"`
pub fn vhost_word() -> (r: Vec<u8>)
    ensures
        r@ == spec_vhost_word(),
{
    vec!['v' as u8, 'h' as u8, 'o' as u8, 's' as u8, 't' as u8]
}

/// `"route"`
pub open spec fn spec_route_word() -> Seq<u8> {
    seq!['r' as u8, 'o' as u8, 'u' as u8, 't' as u8, 'e' as u8]
}

/// `"route"`
pub fn route_word() -> (r: Vec<u8>)
    ensures
        r@ == spec_route_word(),
{
    vec!['r' as u8, 'o' as u8, 'u' as u8, 't' as u8, 'e' as u8]
}

/// `"methods"`
pub open spec fn spec_methods_word() -> Seq<u8> {
    seq!['m' as u8, 'e' as u8, 't' as u8, 'h' as u8, 'o' as u8, 'd' as u8, 's' as u8]
}

/// `"methods"`
pub fn methods_word() -> (r: Vec<u8>)
    ensures
        r@ == spec_methods_word(),
{
    vec!['m' as u8, 'e' as u8, 't' as u8, 'h' as u8, 'o' as u8, 'd' as u8, 's' as u8]
}

/// `"root"`
pub open spec fn spec_root_word() -> Seq<u8> {
    seq!['r' as u8, 'o' as u8, 'o' as u8, 't' as u8]
}

/// `"root"`
pub fn root_word() -> (r: Vec<u8>)
    ensures
        r@ == spec_root_word(),
{
    vec!['r' as u8, 'o' as u8, 'o' as u8, 't' as u8]
}

/// `"default_file"`
pub open spec fn spec_default_file_word() -> Seq<u8> {
    seq!['d' as u8, 'e' as u8, 'f' as u8, 'a' as u8, 'u' as u8, 'l' as u8, 't' as u8, '_' as u8, 'f' as u8, 'i' as u8, 'l' as u8, 'e' as u8]
}

/// `"default_file"`
pub fn default_file_word() -> (r: Vec<u8>)
    ensures
        r@ == spec_default_file_word(),
{
    vec!['d' as u8, 'e' as u8, 'f' as u8, 'a' as u8, 'u' as u8, 'l' as u8, 't' as u8, '_' as u8, 'f' as u8, 'i' as u8, 'l' as u8, 'e' as u8]
}

/// `"default"`
pub open spec fn spec_default_word() -> Seq<u8> {
    seq!['d' as u8, 'e' as u8, 'f' as u8, 'a' as u8, 'u' as u8, 'l' as u8, 't' as u8]
}

/// `"default"`
pub fn default_word() -> (r: Vec<u8>)
    ensures
        r@ == spec_default_word(),
{
    vec!['d' as u8, 'e' as u8, 'f' as u8, 'a' as u8, 'u' as u8, 'l' as u8, 't' as u8]
}

/// `"autoindex"`
pub open spec fn spec_autoindex_word() -> Seq<u8> {
    seq!['a' as u8, 'u' as u8, 't' as u8, 'o' as u8, 'i' as u8, 'n' as u8, 'd' as u8, 'e' as u8, 'x' as u8]
}

/// `"autoindex"`
pub fn autoindex_word() -> (r: Vec<u8>)
    ensures
        r@ == spec_autoindex_word(),
{
    vec!['a' as u8, 'u' as u8, 't' as u8, 'o' as u8, 'i' as u8, 'n' as u8, 'd' as u8, 'e' as u8, 'x' as u8]
}

/// `"cgi"`
pub open spec fn spec_cgi_word() -> Seq<u8> {
    seq!['c' as u8, 'g' as u8, 'i' as u8]
}

/// `"cgi"`
pub fn cgi_word() -> (r: Vec<u8>)
    ensures
        r@ == spec_cgi_word(),
{
    vec!['c' as u8, 'g' as u8, 'i' as u8]
}

/// `"redirect"`
pub open spec fn spec_redirect_word() -> Seq<u8> {
    seq!['r' as u8, 'e' as u8, 'd' as u8, 'i' as u8, 'r' as u8, 'e' as u8, 'c' as u8, 't' as u8]
}

/// `"redirect"`
pub fn redirect_word() -> (r: Vec<u8>)
    ensures
        r@ == spec_redirect_word(),
{
    vec!['r' as u8, 'e' as u8, 'd' as u8, 'i' as u8, 'r' as u8, 'e' as u8, 'c' as u8, 't' as u8]
}

/// `"on"`
pub open spec fn spec_on_word() -> Seq<u8> {
    seq!['o' as u8, 'n' as u8]
}

/// `"on"`
pub fn on_word() -> (r: Vec<u8>)
    ensures
        r@ == spec_on_word(),
{
    vec!['o' as u8, 'n' as u8]
}

/// `"true"`
pub open spec fn spec_true_word() -> Seq<u8> {
    seq!['t' as u8, 'r' as u8, 'u' as u8, 'e' as u8]
}

/// `"true"`
pub fn true_word() -> (r: Vec<u8>)
    ensures
        r@ == spec_true_word(),
{
    vec!['t' as u8, 'r' as u8, 'u' as u8, 'e' as u8]
}

/// `"yes"`
pub open spec fn spec_yes_word() -> Seq<u8> {
    seq!['y' as u8, 'e' as u8, 's' as u8]
}

/// `"yes"`
pub fn yes_word() -> (r: Vec<u8>)
    ensures
        r@ == spec_yes_word(),
{
    vec!['y' as u8, 'e' as u8, 's' as u8]
}

/// `"127.0.0.1:8080"`
pub open spec fn spec_default_listen() -> Seq<u8> {
    seq!['1' as u8, '2' as u8, '7' as u8, '.' as u8, '0' as u8, '.' as u8, '0' as u8, '.' as u8, '1' as u8, ':' as u8, '8' as u8, '0' as u8, '8' as u8, '0' as u8]
}

/// `"127.0.0.1:8080"`
pub fn default_listen() -> (r: Vec<u8>)
    ensures
        r@ == spec_default_listen(),
{
    vec!['1' as u8, '2' as u8, '7' as u8, '.' as u8, '0' as u8, '.' as u8, '0' as u8, '.' as u8, '1' as u8, ':' as u8, '8' as u8, '0' as u8, '8' as u8, '0' as u8]
}

} // verus!
