//! The shell of an HTML document, into which the parts of a page are
//! interpolated: entries of the head and scripts on both sides of the
//! interpolation boundary, and the content of the page.
//!
//! What stands before the boundary belongs to the application and stays when
//! the page changes; what stands after it belongs to the page.

use crate::frozen_app::{frame_object, object_text};
use crate::json::{json_quoted, quote, render_cfg_text};
use crate::text::{decimal, join, joined, replace_all, replaced, to_decimal};
use std::collections::HashMap;
use vstd::prelude::*;
use vstd::string::StringExecFns;

verus! {

/// The script that declares the render configuration, before the configuration.
pub const RENDER_CFG_OPEN: &'static str = "window.__PERSEUS_RENDER_CFG = '";

/// The script that declares the render configuration, after the configuration.
pub const RENDER_CFG_CLOSE: &'static str = "';";

/// The script that marks a run under test.
pub const TESTING_SCRIPT: &'static str = "window.__PERSEUS_TESTING = true;";

/// The script that loads the bundle, up to the first path prefix.
pub const WASM_LOADER_OPEN: &'static str = "\n        import init, { run } from \"";

/// The script that loads the bundle, between the two path prefixes.
pub const WASM_LOADER_MIDDLE: &'static str = "/.perseus/bundle.js\";\n        async function main() {\n            await init(\"";

/// The script that loads the bundle, after the second path prefix.
pub const WASM_LOADER_CLOSE: &'static str = "/.perseus/bundle.wasm\");\n            run();\n        }\n        main();\n        ";

/// The base element, before the path prefix.
pub const BASE_OPEN: &'static str = "<base href=\"";

/// The base element, after the path prefix.
pub const BASE_CLOSE: &'static str = "/\" />";

/// The script that declares the initial state, before the state.
pub const INITIAL_STATE_OPEN: &'static str = "window.__PERSEUS_INITIAL_STATE = `";

/// The script that declares the initial state, after the state.
pub const INITIAL_STATE_CLOSE: &'static str = "`";

/// What stands for the state of a page that has none.
pub const NO_STATE: &'static str = "None";

/// The script that declares an error as the initial state, before the error.
pub const ERROR_STATE_OPEN: &'static str = "window.__PERSEUS_INITIAL_STATE = `error-";

/// The script that declares an error as the initial state, after the error.
pub const ERROR_STATE_CLOSE: &'static str = "`;";

/// The redirection for a browser without scripts, before the URL.
pub const NOSCRIPT_OPEN: &'static str = "<noscript>\n        <meta http-equiv=\"refresh\" content=\"0; url=";

/// The redirection for a browser without scripts, after the URL.
pub const NOSCRIPT_CLOSE: &'static str = "\" />\n    </noscript>";

/// The redirection for a browser without WebAssembly, before the URL.
pub const JS_REDIRECT_OPEN: &'static str = "\n        function wasmSupported() {\n            try {\n                if (typeof WebAssembly === \"object\"\n                    && typeof WebAssembly.instantiate === \"function\") {\n                    const module = new WebAssembly.Module(Uint8Array.of(0x0, 0x61, 0x73, 0x6d, 0x01, 0x00, 0x00, 0x00));\n                    if (module instanceof WebAssembly.Module) {\n                        return new WebAssembly.Instance(module) instanceof WebAssembly.Instance;\n                    }\n                }\n            } catch (e) {}\n            return false;\n        }\n\n        if (!wasmSupported()) {\n            window.location.replace(\"";

/// The redirection for a browser without WebAssembly, after the URL.
pub const JS_REDIRECT_CLOSE: &'static str = "\");\n        }\n            ";

/// The tag that opens the head of the document.
pub const HEAD_OPEN: &'static str = "<head>";

/// The tag that closes the head of the document.
pub const HEAD_CLOSE: &'static str = "</head>";

/// What the end of the head begins with: the opening of the module script.
pub const MODULE_SCRIPT_OPEN: &'static str = "\n            <script type=\"module\">";

/// The end of the module script and the comment that bounds the interpolated head.
pub const HEAD_BOUNDARY: &'static str = "</script>\n            <!--PERSEUS_INTERPOLATED_HEAD_BEGINS-->\n            ";

/// The opening of the script after the boundary.
pub const SCRIPT_OPEN: &'static str = "\n            <script>";

/// The end of the script after the boundary.
pub const SCRIPT_CLOSE: &'static str = "</script>\n            ";

/// The root element with double quotes, before the identifier.
pub const ROOT_DOUBLE_OPEN: &'static str = "<div id=\"";

/// The root element with double quotes, after the identifier.
pub const ROOT_DOUBLE_CLOSE: &'static str = "\">";

/// The root element with single quotes, before the identifier.
pub const ROOT_SINGLE_OPEN: &'static str = "<div id='";

/// The root element with single quotes, after the identifier.
pub const ROOT_SINGLE_CLOSE: &'static str = "'>";

/// The element that wraps the content, before the content.
pub const CONTENT_OPEN: &'static str = "<div id=\"__perseus_content_initial\" class=\"__perseus_content\">";

/// The element that wraps the content, after the content.
pub const CONTENT_CLOSE: &'static str = "</div>";

/// What separates the entries of the head and the scripts.
pub const LINE_BREAK: &'static str = "\n";

/// A backslash.
pub const BACKSLASH: &'static str = "\\";

/// A backslash, escaped.
pub const ESCAPED_BACKSLASH: &'static str = "\\\\";

/// A backtick.
pub const BACKTICK: &'static str = "`";

/// A backtick, escaped.
pub const ESCAPED_BACKTICK: &'static str = "\\`";

/// The opening of an interpolation in a template literal.
pub const INTERPOLATION: &'static str = "${";

/// The opening of an interpolation, escaped.
pub const ESCAPED_INTERPOLATION: &'static str = "\\${";

/// The key of the URL in the data of an error page, as it is written.
pub const URL_KEY: &'static str = "\"url\"";

/// The key of the status in the data of an error page, as it is written.
pub const STATUS_KEY: &'static str = "\"status\"";

/// The key of the message in the data of an error page, as it is written.
pub const ERR_KEY: &'static str = "\"err\"";

/// The data of a page: its content, its serialized state where it has one, and
/// the entries of its head.
#[derive(Clone, Debug)]
pub struct PageData {
    pub content: String,
    pub state: Option<String>,
    pub head: String,
}

/// The data of an error page: the URL that failed, the status, and the message.
#[derive(Clone, Debug)]
pub struct ErrorPageData {
    pub url: String,
    pub status: u16,
    pub err: String,
}

/// `data` with the characters escaped that would end or disturb a template
/// literal of JavaScript: every backslash and every backtick has a backslash
/// put before it, and so has every dollar sign that a brace follows.
pub open spec fn escaped(data: Seq<char>) -> Seq<char>
    decreases data.len(),
{
    if data.len() == 0 {
        data
    } else if data[0] == '\\' {
        ESCAPED_BACKSLASH@ + escaped(data.skip(1))
    } else if data[0] == '`' {
        ESCAPED_BACKTICK@ + escaped(data.skip(1))
    } else if data[0] == '$' && data.len() >= 2 && data[1] == '{' {
        ESCAPED_INTERPOLATION@ + escaped(data.skip(2))
    } else {
        seq![data[0]] + escaped(data.skip(1))
    }
}

/// `data` after the first two of the three passes that escape it: backslashes
/// first, backticks second.
pub open spec fn escaped_marks(data: Seq<char>) -> Seq<char> {
    replaced(replaced(data, BACKSLASH@, ESCAPED_BACKSLASH@), BACKTICK@, ESCAPED_BACKTICK@)
}

/// `data` after the three passes that escape it: backslashes, backticks,
/// openings of an interpolation.
pub open spec fn escaped_in_passes(data: Seq<char>) -> Seq<char> {
    replaced(escaped_marks(data), INTERPOLATION@, ESCAPED_INTERPOLATION@)
}

/// What the constants of the three passes hold.
proof fn lemma_escape_constants()
    ensures
        BACKSLASH@ =~= seq!['\\'],
        ESCAPED_BACKSLASH@ =~= seq!['\\', '\\'],
        BACKTICK@ =~= seq!['`'],
        ESCAPED_BACKTICK@ =~= seq!['\\', '`'],
        INTERPOLATION@ =~= seq!['$', '{'],
        ESCAPED_INTERPOLATION@ =~= seq!['\\', '$', '{'],
{
    reveal_strlit("\\");
    reveal_strlit("\\\\");
    reveal_strlit("`");
    reveal_strlit("\\`");
    reveal_strlit("${");
    reveal_strlit("\\${");
}

/// Replacing a pattern of one character goes character by character.
proof fn lemma_replaced_one_step(text: Seq<char>, from: Seq<char>, to: Seq<char>)
    requires
        from.len() == 1,
        text.len() >= 1,
    ensures
        replaced(text, from, to) == (if text[0] == from[0] {
            to
        } else {
            seq![text[0]]
        }) + replaced(text.skip(1), from, to),
{
    if text[0] == from[0] {
        assert(text.take(1) =~= from);
    } else {
        assert(text.take(1)[0] != from[0]);
    }
}

/// Replacing a pattern of one character in two texts put together is replacing
/// it in each.
proof fn lemma_replaced_one_concat(a: Seq<char>, b: Seq<char>, from: Seq<char>, to: Seq<char>)
    requires
        from.len() == 1,
    ensures
        replaced(a + b, from, to) == replaced(a, from, to) + replaced(b, from, to),
    decreases a.len(),
{
    if a.len() == 0 {
        assert(a + b =~= b);
        assert(replaced(a, from, to) + replaced(b, from, to) =~= replaced(b, from, to));
    } else {
        lemma_replaced_one_step(a + b, from, to);
        lemma_replaced_one_step(a, from, to);
        assert((a + b).skip(1) =~= a.skip(1) + b);
        lemma_replaced_one_concat(a.skip(1), b, from, to);
        let head = if a[0] == from[0] {
            to
        } else {
            seq![a[0]]
        };
        assert(head + (replaced(a.skip(1), from, to) + replaced(b, from, to)) =~= (head + replaced(
            a.skip(1),
            from,
            to,
        )) + replaced(b, from, to));
    }
}

/// What the first two passes make of one character.
pub open spec fn escaped_mark(c: char) -> Seq<char> {
    if c == '\\' {
        ESCAPED_BACKSLASH@
    } else if c == '`' {
        ESCAPED_BACKTICK@
    } else {
        seq![c]
    }
}

/// The first two passes go character by character.
proof fn lemma_escaped_marks_step(data: Seq<char>)
    requires
        data.len() >= 1,
    ensures
        escaped_marks(data) == escaped_mark(data[0]) + escaped_marks(data.skip(1)),
{
    lemma_escape_constants();
    let first = replaced(data, BACKSLASH@, ESCAPED_BACKSLASH@);
    let rest = replaced(data.skip(1), BACKSLASH@, ESCAPED_BACKSLASH@);
    lemma_replaced_one_step(data, BACKSLASH@, ESCAPED_BACKSLASH@);
    let head = if data[0] == '\\' {
        ESCAPED_BACKSLASH@
    } else {
        seq![data[0]]
    };
    assert(first == head + rest);
    lemma_replaced_one_concat(head, rest, BACKTICK@, ESCAPED_BACKTICK@);
    assert(replaced(head, BACKTICK@, ESCAPED_BACKTICK@) == escaped_mark(data[0])) by {
        let empty = Seq::<char>::empty();
        assert(replaced(empty, BACKTICK@, ESCAPED_BACKTICK@) == empty);
        if data[0] == '\\' {
            let one = seq!['\\'];
            lemma_replaced_one_step(head, BACKTICK@, ESCAPED_BACKTICK@);
            assert(head.skip(1) =~= one);
            lemma_replaced_one_step(one, BACKTICK@, ESCAPED_BACKTICK@);
            assert(one.skip(1) =~= empty);
            assert(one + (one + empty) =~= head);
        } else {
            lemma_replaced_one_step(head, BACKTICK@, ESCAPED_BACKTICK@);
            assert(head.skip(1) =~= empty);
            assert(ESCAPED_BACKTICK@ + empty =~= ESCAPED_BACKTICK@);
            assert(head + empty =~= head);
        }
    }
}

/// A character that does not open the pattern of the third pass is left as it
/// is.
proof fn lemma_interpolation_skips(text: Seq<char>)
    requires
        text.len() >= 1,
        text[0] != '$',
    ensures
        replaced(text, INTERPOLATION@, ESCAPED_INTERPOLATION@) == seq![text[0]] + replaced(
            text.skip(1),
            INTERPOLATION@,
            ESCAPED_INTERPOLATION@,
        ),
{
    lemma_escape_constants();
    if text.len() < 2 {
        assert(text =~= seq![text[0]] + text.skip(1));
    } else {
        assert(text.take(2)[0] != INTERPOLATION@[0]);
    }
}

/// The three passes escape the data: what they give is what [`escaped`] says.
pub proof fn lemma_passes_escape(data: Seq<char>)
    ensures
        escaped_in_passes(data) == escaped(data),
    decreases data.len(),
{
    lemma_escape_constants();
    let from = INTERPOLATION@;
    let to = ESCAPED_INTERPOLATION@;
    let empty = Seq::<char>::empty();
    if data.len() == 0 {
        assert(escaped_in_passes(data) =~= data);
    } else {
        let c = data[0];
        let rest = data.skip(1);
        let marks = escaped_marks(rest);
        let text = escaped_marks(data);
        lemma_escaped_marks_step(data);
        lemma_passes_escape(rest);
        if c == '\\' || c == '`' {
            let second = escaped_mark(c)[1];
            lemma_interpolation_skips(text);
            assert(text.skip(1) =~= seq![second] + marks);
            lemma_interpolation_skips(text.skip(1));
            assert(text.skip(1).skip(1) =~= marks);
            assert(seq!['\\'] + (seq![second] + replaced(marks, from, to)) =~= escaped_mark(c)
                + replaced(marks, from, to));
        } else if c == '$' {
            assert(text =~= seq!['$'] + marks);
            if rest.len() == 0 {
                assert(marks =~= empty);
                assert(text.len() == 1);
                assert(escaped(rest) =~= empty);
                assert(replaced(text, from, to) =~= seq!['$'] + escaped(rest));
            } else {
                lemma_escaped_marks_step(rest);
                let after = escaped_marks(rest.skip(1));
                assert(marks == escaped_mark(rest[0]) + after);
                assert(text[1] == marks[0]);
                if rest[0] == '{' {
                    assert(text.take(2) =~= from);
                    assert(text.skip(2) =~= after);
                    assert(data.skip(2) =~= rest.skip(1));
                    lemma_passes_escape(data.skip(2));
                } else {
                    assert(marks[0] != '{');
                    assert(text.take(2)[1] != from[1]);
                    assert(text.skip(1) =~= marks);
                }
            }
        } else {
            lemma_interpolation_skips(text);
            assert(text.skip(1) =~= marks);
        }
    }
}

/// The script that declares the render configuration `cfg`.
pub open spec fn render_cfg_script(cfg: Seq<char>) -> Seq<char> {
    RENDER_CFG_OPEN@ + cfg + RENDER_CFG_CLOSE@
}

/// The script that loads the bundle from under `path_prefix`.
pub open spec fn wasm_loader_script(path_prefix: Seq<char>) -> Seq<char> {
    WASM_LOADER_OPEN@ + path_prefix + WASM_LOADER_MIDDLE@ + path_prefix + WASM_LOADER_CLOSE@
}

/// The base element for `path_prefix`.
pub open spec fn base_tag(path_prefix: Seq<char>) -> Seq<char> {
    BASE_OPEN@ + path_prefix + BASE_CLOSE@
}

/// The script that declares the initial state of a page.
pub open spec fn initial_state_script(state: Option<Seq<char>>) -> Seq<char> {
    INITIAL_STATE_OPEN@ + (match state {
        Some(state) => escaped(state),
        None => NO_STATE@,
    }) + INITIAL_STATE_CLOSE@
}

/// The data of an error page as it is written in JSON.
pub open spec fn error_json(url: Seq<char>, status: nat, err: Seq<char>) -> Seq<char> {
    object_text(
        seq![
            (URL_KEY@, json_quoted(url)),
            (STATUS_KEY@, decimal(status)),
            (ERR_KEY@, json_quoted(err)),
        ],
    )
}

/// The script that declares an error as the initial state.
pub open spec fn error_state_script(error: Seq<char>) -> Seq<char> {
    ERROR_STATE_OPEN@ + escaped(error) + ERROR_STATE_CLOSE@
}

/// The redirection to `redirect_url` for a browser without scripts.
pub open spec fn noscript_redirect(redirect_url: Seq<char>) -> Seq<char> {
    NOSCRIPT_OPEN@ + redirect_url + NOSCRIPT_CLOSE@
}

/// The redirection to `redirect_url` for a browser without WebAssembly.
pub open spec fn js_redirect(redirect_url: Seq<char>) -> Seq<char> {
    JS_REDIRECT_OPEN@ + redirect_url + JS_REDIRECT_CLOSE@
}

/// The mathematical content of a shell.
#[verifier::ext_equal]
pub struct ShellView {
    /// The document into which everything else is interpolated.
    pub shell: Seq<char>,
    /// The entries of the head before the boundary.
    pub head_before_boundary: Seq<Seq<char>>,
    /// The scripts before the boundary.
    pub scripts_before_boundary: Seq<Seq<char>>,
    /// The entries of the head after the boundary.
    pub head_after_boundary: Seq<Seq<char>>,
    /// The scripts after the boundary.
    pub scripts_after_boundary: Seq<Seq<char>>,
    /// The content of the page.
    pub content: Seq<char>,
    /// The identifier of the element that takes the content.
    pub root_id: Seq<char>,
}

impl ShellView {
    /// The shell as it is made: the render configuration and the loader of the
    /// bundle are its scripts, the base element is its head, and it has no
    /// content yet.
    pub open spec fn initial(
        shell: Seq<char>,
        root_id: Seq<char>,
        cfg: Seq<char>,
        path_prefix: Seq<char>,
    ) -> ShellView {
        ShellView {
            shell,
            head_before_boundary: seq![base_tag(path_prefix)],
            scripts_before_boundary: seq![render_cfg_script(cfg), wasm_loader_script(path_prefix)],
            head_after_boundary: Seq::empty(),
            scripts_after_boundary: Seq::empty(),
            content: Seq::empty(),
            root_id,
        }
    }

    /// The shell marked as running under test: the mark stands after the first
    /// script before the boundary, or alone where there is none.
    pub open spec fn testing(self) -> ShellView {
        let at: int = if self.scripts_before_boundary.len() == 0 {
            0
        } else {
            1
        };
        ShellView {
            scripts_before_boundary: self.scripts_before_boundary.insert(at, TESTING_SCRIPT@),
            ..self
        }
    }

    /// The shell with the data of a page interpolated.
    pub open spec fn page_data(
        self,
        content: Seq<char>,
        state: Option<Seq<char>>,
        head: Seq<char>,
    ) -> ShellView {
        ShellView {
            scripts_after_boundary: self.scripts_after_boundary.push(initial_state_script(state)),
            head_after_boundary: self.head_after_boundary.push(head),
            content,
            ..self
        }
    }

    /// The shell with the two redirections to `redirect_url` interpolated.
    pub open spec fn locale_redirection_fallback(self, redirect_url: Seq<char>) -> ShellView {
        ShellView {
            head_after_boundary: self.head_after_boundary.push(noscript_redirect(redirect_url)),
            scripts_after_boundary: self.scripts_after_boundary.push(js_redirect(redirect_url)),
            ..self
        }
    }

    /// The shell with an error page interpolated: `error` is the data of the
    /// error as it is written in JSON, `error_html` the content.
    pub open spec fn error_page(self, error: Seq<char>, error_html: Seq<char>) -> ShellView {
        ShellView {
            scripts_after_boundary: self.scripts_after_boundary.push(error_state_script(error)),
            content: error_html,
            ..self
        }
    }

    /// What is interpolated behind the opening of the head.
    pub open spec fn head_start(self) -> Seq<char> {
        joined(self.head_before_boundary, LINE_BREAK@)
    }

    /// What is interpolated before the end of the head.
    pub open spec fn head_end(self) -> Seq<char> {
        MODULE_SCRIPT_OPEN@ + joined(self.scripts_before_boundary, LINE_BREAK@) + HEAD_BOUNDARY@
            + joined(self.head_after_boundary, LINE_BREAK@) + SCRIPT_OPEN@ + joined(
            self.scripts_after_boundary,
            LINE_BREAK@,
        ) + SCRIPT_CLOSE@
    }

    /// The root element, written with double quotes.
    pub open spec fn root_double(self) -> Seq<char> {
        ROOT_DOUBLE_OPEN@ + self.root_id + ROOT_DOUBLE_CLOSE@
    }

    /// The root element, written with single quotes.
    pub open spec fn root_single(self) -> Seq<char> {
        ROOT_SINGLE_OPEN@ + self.root_id + ROOT_SINGLE_CLOSE@
    }

    /// What takes the place of the root element: the root element with the
    /// content wrapped into an element of its own.
    pub open spec fn root_with_content(self) -> Seq<char> {
        self.root_double() + CONTENT_OPEN@ + self.content + CONTENT_CLOSE@
    }

    /// The document: the shell with the head interpolated behind the opening
    /// and before the end of its head, and with the content interpolated at the
    /// root element, in whichever of the two ways that is written.
    pub open spec fn render(self) -> Seq<char> {
        let with_head = replaced(
            replaced(self.shell, HEAD_OPEN@, HEAD_OPEN@ + self.head_start()),
            HEAD_CLOSE@,
            self.head_end() + HEAD_CLOSE@,
        );
        replaced(
            replaced(with_head, self.root_double(), self.root_with_content()),
            self.root_single(),
            self.root_with_content(),
        )
    }
}

/// Escapes the characters of the data of a page that would disturb a template
/// literal of JavaScript.
pub fn escape_page_data(data: &str) -> (r: String)
    ensures
        r@ == escaped(data@),
{
    let step1 = replace_all(data, BACKSLASH, ESCAPED_BACKSLASH);
    let step2 = replace_all(step1.as_str(), BACKTICK, ESCAPED_BACKTICK);
    proof {
        lemma_passes_escape(data@);
    }
    replace_all(step2.as_str(), INTERPOLATION, ESCAPED_INTERPOLATION)
}

/// Puts `middle` between `open` and `close`.
fn wrap(open: &str, middle: &str, close: &str) -> (r: String)
    ensures
        r@ == open@ + middle@ + close@,
{
    let mut out: String = open.to_owned();
    out.append(middle);
    out.append(close);
    out
}

/// Writes the data of an error page in JSON.
pub fn error_page_json(data: &ErrorPageData) -> (r: String)
    ensures
        r@ == error_json(data.url@, data.status as nat, data.err@),
{
    let mut members: Vec<(String, String)> = Vec::new();
    members.push((URL_KEY.to_owned(), quote(data.url.as_str())));
    members.push((STATUS_KEY.to_owned(), to_decimal(data.status)));
    members.push((ERR_KEY.to_owned(), quote(data.err.as_str())));
    proof {
        assert(members.deep_view() =~= seq![
            (URL_KEY@, json_quoted(data.url@)),
            (STATUS_KEY@, decimal(data.status as nat)),
            (ERR_KEY@, json_quoted(data.err@)),
        ]);
    }
    frame_object(&members)
}

/// The shell of an HTML document.
#[derive(Clone, Debug)]
pub struct HtmlShell {
    shell: String,
    head_before_boundary: Vec<String>,
    scripts_before_boundary: Vec<String>,
    head_after_boundary: Vec<String>,
    scripts_after_boundary: Vec<String>,
    content: String,
    root_id: String,
}

impl View for HtmlShell {
    type V = ShellView;

    closed spec fn view(&self) -> ShellView {
        ShellView {
            shell: self.shell@,
            head_before_boundary: self.head_before_boundary.deep_view(),
            scripts_before_boundary: self.scripts_before_boundary.deep_view(),
            head_after_boundary: self.head_after_boundary.deep_view(),
            scripts_after_boundary: self.scripts_after_boundary.deep_view(),
            content: self.content@,
            root_id: self.root_id@,
        }
    }
}

impl HtmlShell {
    /// Makes a shell from the document `shell`, the identifier of the root
    /// element, the render configuration as it is written in JSON, and the
    /// prefix of the paths of the application.
    pub fn with_render_cfg(shell: String, root_id: &str, render_cfg: &str, path_prefix: &str) -> (r:
        Self)
        ensures
            r@ == ShellView::initial(shell@, root_id@, render_cfg@, path_prefix@),
    {
        let mut head_before_boundary: Vec<String> = Vec::new();
        let mut scripts_before_boundary: Vec<String> = Vec::new();
        scripts_before_boundary.push(wrap(RENDER_CFG_OPEN, render_cfg, RENDER_CFG_CLOSE));
        let mut load_wasm_bundle = wrap(WASM_LOADER_OPEN, path_prefix, WASM_LOADER_MIDDLE);
        load_wasm_bundle.append(path_prefix);
        load_wasm_bundle.append(WASM_LOADER_CLOSE);
        scripts_before_boundary.push(load_wasm_bundle);
        head_before_boundary.push(wrap(BASE_OPEN, path_prefix, BASE_CLOSE));
        let r = HtmlShell {
            shell,
            head_before_boundary,
            scripts_before_boundary,
            head_after_boundary: Vec::new(),
            scripts_after_boundary: Vec::new(),
            content: String::new(),
            root_id: root_id.to_owned(),
        };
        proof {
            let expected = ShellView::initial(shell@, root_id@, render_cfg@, path_prefix@);
            assert(r@.head_before_boundary =~= expected.head_before_boundary);
            assert(r@.scripts_before_boundary =~= expected.scripts_before_boundary);
            assert(r@.head_after_boundary =~= expected.head_after_boundary);
            assert(r@.scripts_after_boundary =~= expected.scripts_after_boundary);
            assert(r@.content =~= expected.content);
        }
        r
    }

    /// Makes a shell from the document `shell`, the identifier of the root
    /// element, the render configuration, and the prefix of the paths of the
    /// application. The render configuration is written in JSON; in which order
    /// its entries come is not fixed.
    pub fn new(shell: String, root_id: &str, render_cfg: &HashMap<String, String>, path_prefix: &str) -> (r:
        Self)
        ensures
            exists|cfg: Seq<char>|
                r@ == #[trigger] ShellView::initial(shell@, root_id@, cfg, path_prefix@),
    {
        let cfg = render_cfg_text(render_cfg);
        HtmlShell::with_render_cfg(shell, root_id, cfg.as_str(), path_prefix)
    }

    /// Marks the shell as running under test.
    pub fn testing(self) -> (r: Self)
        ensures
            r@ == self@.testing(),
    {
        let mut shell = self;
        let ghost before = shell.scripts_before_boundary.deep_view();
        let at: usize = if shell.scripts_before_boundary.len() == 0 {
            0
        } else {
            1
        };
        shell.scripts_before_boundary.insert(at, TESTING_SCRIPT.to_owned());
        proof {
            assert(shell.scripts_before_boundary.deep_view() =~= before.insert(
                at as int,
                TESTING_SCRIPT@,
            ));
        }
        shell
    }

    /// Interpolates the data of a page into the shell.
    pub fn page_data(self, page_data: &PageData) -> (r: Self)
        ensures
            r@ == self@.page_data(page_data.content@, page_data.state.deep_view(), page_data.head@),
    {
        let mut shell = self;
        let initial_state = match &page_data.state {
            Some(state) => escape_page_data(state.as_str()),
            None => NO_STATE.to_owned(),
        };
        let ghost scripts = shell.scripts_after_boundary.deep_view();
        let ghost head = shell.head_after_boundary.deep_view();
        let script = wrap(INITIAL_STATE_OPEN, initial_state.as_str(), INITIAL_STATE_CLOSE);
        shell.scripts_after_boundary.push(script);
        shell.head_after_boundary.push(page_data.head.clone());
        shell.content = page_data.content.clone();
        proof {
            assert(shell.scripts_after_boundary.deep_view() =~= scripts.push(
                initial_state_script(page_data.state.deep_view()),
            ));
            assert(shell.head_after_boundary.deep_view() =~= head.push(page_data.head@));
        }
        shell
    }

    /// Interpolates a fallback for the pages that redirect to a locale: a
    /// browser without scripts, and one with scripts and without WebAssembly,
    /// is sent to `redirect_url` all the same.
    pub fn locale_redirection_fallback(self, redirect_url: &str) -> (r: Self)
        ensures
            r@ == self@.locale_redirection_fallback(redirect_url@),
    {
        let mut shell = self;
        let dumb_redirect = wrap(NOSCRIPT_OPEN, redirect_url, NOSCRIPT_CLOSE);
        let js_redirect = wrap(JS_REDIRECT_OPEN, redirect_url, JS_REDIRECT_CLOSE);
        let ghost scripts = shell.scripts_after_boundary.deep_view();
        let ghost head = shell.head_after_boundary.deep_view();
        shell.head_after_boundary.push(dumb_redirect);
        shell.scripts_after_boundary.push(js_redirect);
        proof {
            assert(shell.head_after_boundary.deep_view() =~= head.push(
                noscript_redirect(redirect_url@),
            ));
            assert(shell.scripts_after_boundary.deep_view() =~= scripts.push(
                self::js_redirect(redirect_url@),
            ));
        }
        shell
    }

    /// Interpolates an error page into the shell, given the data of the error
    /// as it is written in JSON.
    pub fn error_page_from_json(self, error: &str, error_html: &str) -> (r: Self)
        ensures
            r@ == self@.error_page(error@, error_html@),
    {
        let mut shell = self;
        let escaped_error = escape_page_data(error);
        let state_var = wrap(ERROR_STATE_OPEN, escaped_error.as_str(), ERROR_STATE_CLOSE);
        let ghost scripts = shell.scripts_after_boundary.deep_view();
        shell.scripts_after_boundary.push(state_var);
        shell.content = error_html.to_owned();
        proof {
            assert(shell.scripts_after_boundary.deep_view() =~= scripts.push(
                error_state_script(error@),
            ));
        }
        shell
    }

    /// Interpolates an error page into the shell.
    pub fn error_page(self, error_page_data: &ErrorPageData, error_html: &str) -> (r: Self)
        ensures
            r@ == self@.error_page(
                error_json(
                    error_page_data.url@,
                    error_page_data.status as nat,
                    error_page_data.err@,
                ),
                error_html@,
            ),
    {
        let error = error_page_json(error_page_data);
        self.error_page_from_json(error.as_str(), error_html)
    }

    /// Writes the document.
    pub fn render(&self) -> (r: String)
        ensures
            r@ == self@.render(),
    {
        let head_start = join(&self.head_before_boundary, LINE_BREAK);
        let mut head_end: String = MODULE_SCRIPT_OPEN.to_owned();
        head_end.append(join(&self.scripts_before_boundary, LINE_BREAK).as_str());
        head_end.append(HEAD_BOUNDARY);
        head_end.append(join(&self.head_after_boundary, LINE_BREAK).as_str());
        head_end.append(SCRIPT_OPEN);
        head_end.append(join(&self.scripts_after_boundary, LINE_BREAK).as_str());
        head_end.append(SCRIPT_CLOSE);
        assert(head_end@ == self@.head_end());
        let mut head_open: String = HEAD_OPEN.to_owned();
        head_open.append(head_start.as_str());
        head_end.append(HEAD_CLOSE);
        let with_head_start = replace_all(self.shell.as_str(), HEAD_OPEN, head_open.as_str());
        let shell_with_head = replace_all(with_head_start.as_str(), HEAD_CLOSE, head_end.as_str());
        let html_to_replace_double = wrap(ROOT_DOUBLE_OPEN, self.root_id.as_str(), ROOT_DOUBLE_CLOSE);
        let html_to_replace_single = wrap(ROOT_SINGLE_OPEN, self.root_id.as_str(), ROOT_SINGLE_CLOSE);
        let mut html_replacement = html_to_replace_double.clone();
        html_replacement.append(CONTENT_OPEN);
        html_replacement.append(self.content.as_str());
        html_replacement.append(CONTENT_CLOSE);
        let with_double = replace_all(
            shell_with_head.as_str(),
            html_to_replace_double.as_str(),
            html_replacement.as_str(),
        );
        replace_all(
            with_double.as_str(),
            html_to_replace_single.as_str(),
            html_replacement.as_str(),
        )
    }
}

} // verus!
