//! The two pages that the operator sees: the form that asks for new
//! durations, and the page that reports what became of a request.

use vstd::prelude::*;

verus! {

/// The page with the form.
pub const FORM_PAGE: &'static str = r#"
<!DOCTYPE html>
<html>
    <head>
        <meta charset="utf-8">
        <meta name="viewport" content="width=device-width, initial-scale=1.0">
        <title>automatic timer</title>
    </head>

	<body>

	<p>Set the timeouts for the ON and OFF State:</p>
	<form action="/update" method="post">
	  <label for="on">ON (seconds)</label>
	  <input type="number" id="on" name="on" min="1" max="59">
	  <br / >
	  <label for="off">OFF (seconds)</label>
	  <input type="number" id="off" name="off" min="1" max="59">
	  <br / >
	  <input type="submit">
	</form>
	</body>
</html>
"#;

/// What stands before the status line on the page that answers a request.
pub const STATUS_PAGE_HEAD: &'static str = r#"
<!DOCTYPE html>
<html>
    <head>
        <meta charset="utf-8">
        <meta name="viewport" content="width=device-width, initial-scale=1.0">
        <title>automatic timer</title>
        <meta http-equiv="refresh" content="5; url=/" />
    </head>

	<body>

	<p>"#;

/// What stands after the status line on the page that answers a request.
pub const STATUS_PAGE_TAIL: &'static str = r#"</p>
	</body>
</html>
"#;

/// The page that asks the operator for new durations.
pub fn index_html() -> (html: String)
    ensures
        html@ == FORM_PAGE@,
{
    String::from_str(FORM_PAGE)
}

/// The page that reports `result`, the status line of a request, and
/// sends the operator back to the form after five seconds.
pub fn post_html(result: &str) -> (html: String)
    ensures
        html@ == STATUS_PAGE_HEAD@ + result@ + STATUS_PAGE_TAIL@,
{
    let mut html: String = String::from_str(STATUS_PAGE_HEAD);
    html.append(result);
    html.append(STATUS_PAGE_TAIL);
    html
}

} // verus!
