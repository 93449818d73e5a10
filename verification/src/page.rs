//! The page that is served while the system is in maintenance mode.

use vstd::prelude::*;

verus! {

/// The text of the maintenance page.
pub const MAINTENANCE_PAGE: &'static str = "
<html>
    <meta http-equiv=\"Content-Type\" content=\"text/html; charset=UTF-8\" />
    <title>UCS in Maintenance Mode</title>
    <body>
        <h1>UCS in Maintenance Mode</h1>
        <p>UCS is currently in Maintenance Mode. Important services like Univention Management Console (UMC) or even Apache are stopped or may not work correctly, so instead, this page is shown. New software is being installed and everything is going right. Please be patient while the system is updated.
    </body>
</html>";

/// The media type of the maintenance page.
pub const MAINTENANCE_PAGE_TYPE: &'static str = "text/html";

/// An answer to a request, as plain values: what a server has to send.
#[derive(Debug, Clone, PartialEq, Eq)]
pub struct Page {
    /// The HTTP status code.
    pub status: u16,
    /// The media type of the body.
    pub content_type: String,
    /// The body, which is sent as UTF-8.
    pub body: String,
}

/// The number of hyper's `StatusCode::Ok`. `StatusCode::as_u16` gives 200
/// for it.
#[verifier::external_body]
fn ok_status() -> (code: u16)
    ensures
        code == 200,
{
    hyper::StatusCode::Ok.as_u16()
}

/// The text of mime's `TEXT_HTML`. The constant is made from the text
/// `text/html`, and `Mime::as_ref` hands that text out.
#[verifier::external_body]
fn html_type() -> (name: String)
    ensures
        name@ == MAINTENANCE_PAGE_TYPE@,
{
    let name: &str = mime::TEXT_HTML.as_ref();
    name.to_owned()
}

/// The answer to every request while the system is in maintenance mode: the
/// maintenance page, as HTML, with the status 200.
pub fn say_hello() -> (page: Page)
    ensures
        page.status == 200,
        page.content_type@ == MAINTENANCE_PAGE_TYPE@,
        page.body@ == MAINTENANCE_PAGE@,
{
    Page { status: ok_status(), content_type: html_type(), body: MAINTENANCE_PAGE.to_owned() }
}

} // verus!
