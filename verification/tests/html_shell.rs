use perseus::html_shell::{escape_page_data, ErrorPageData, HtmlShell, PageData};
use std::collections::HashMap;
use std::iter::FromIterator;

const SHELL: &str = r#"
    <html>
        <head>
            <title>Shell</title>
        </head>
        <body>
            <p>Content</p>
            <div id="root_id"></div>
        </body>
    </html>
    "#;

fn get_render_config() -> HashMap<String, String> {
    HashMap::from_iter([("key".into(), "value".into())])
}

#[test]
fn basic_shell() {
    let shell = HtmlShell::new(SHELL.into(), "root_id", &get_render_config(), "prefix");
    println!("{}", shell.render());
}

#[test]
fn page_data_shell() {
    let page_data = PageData {
        content: "page_data.content".to_string(),
        state: Some("page_data.state".to_string()),
        head: "page_data.head".to_string(),
    };

    let shell = HtmlShell::new(SHELL.into(), "root_id", &get_render_config(), "prefix")
        .page_data(&page_data);

    println!("{}", shell.render());
}

#[test]
fn redirect_fallback_shell() {
    let shell = HtmlShell::new(SHELL.into(), "root_id", &get_render_config(), "prefix")
        .locale_redirection_fallback("redirect_url");

    println!("{}", shell.render());
}

#[test]
fn error_page_shell() {
    let error_page_data = ErrorPageData {
        url: "Made up URL".to_string(),
        status: 404,
        err: "page not found".to_string(),
    };

    let shell = HtmlShell::new(SHELL.into(), "root_id", &get_render_config(), "prefix")
        .error_page(&error_page_data, "Page not found.");

    println!("{}", shell.render());
}

#[test]
fn escape_page_data_escapes_in_three_passes() {
    assert_eq!(escape_page_data(r#"a\b"#), r#"a\\b"#);
    assert_eq!(escape_page_data("a`b"), r#"a\`b"#);
    assert_eq!(escape_page_data("a${b}"), r#"a\${b}"#);
    assert_eq!(escape_page_data("$ {"), "$ {");
    assert_eq!(escape_page_data(r#"\`${"#), r#"\\\`\${"#);
    assert_eq!(escape_page_data(""), "");
}

#[test]
fn basic_shell_is_rendered_exactly() {
    let shell = HtmlShell::new(SHELL.into(), "root_id", &get_render_config(), "prefix");
    let expected = "
    <html>
        <head><base href=\"prefix/\" />
            <title>Shell</title>
        
            <script type=\"module\">window.__PERSEUS_RENDER_CFG = '{\"key\":\"value\"}';

        import init, { run } from \"prefix/.perseus/bundle.js\";
        async function main() {
            await init(\"prefix/.perseus/bundle.wasm\");
            run();
        }
        main();
        </script>
            <!--PERSEUS_INTERPOLATED_HEAD_BEGINS-->
            
            <script></script>
            </head>
        <body>
            <p>Content</p>
            <div id=\"root_id\"><div id=\"__perseus_content_initial\" class=\"__perseus_content\"></div></div>
        </body>
    </html>
    ";
    assert_eq!(shell.render(), expected);
}

#[test]
fn page_data_is_interpolated_after_the_boundary() {
    let page_data = PageData {
        content: "<p>Hello</p>".to_string(),
        state: Some(r#"{"greeting":"`hi` ${x}"}"#.to_string()),
        head: "<title>Page</title>".to_string(),
    };
    let html = HtmlShell::with_render_cfg("<head></head><div id='root'></div>".into(), "root", "{}", "")
        .page_data(&page_data)
        .render();
    let expected = "<head><base href=\"/\" />\n            <script type=\"module\">window.__PERSEUS_RENDER_CFG = '{}';\n\n        import init, { run } from \"/.perseus/bundle.js\";\n        async function main() {\n            await init(\"/.perseus/bundle.wasm\");\n            run();\n        }\n        main();\n        </script>\n            <!--PERSEUS_INTERPOLATED_HEAD_BEGINS-->\n            <title>Page</title>\n            <script>window.__PERSEUS_INITIAL_STATE = `{\"greeting\":\"\\`hi\\` \\${x}\"}`</script>\n            </head><div id=\"root\"><div id=\"__perseus_content_initial\" class=\"__perseus_content\"><p>Hello</p></div></div>";
    assert_eq!(html, expected);
}

#[test]
fn page_without_state_declares_none() {
    let page_data = PageData {
        content: String::new(),
        state: None,
        head: String::new(),
    };
    let html = HtmlShell::with_render_cfg("</head>".into(), "root", "{}", "")
        .page_data(&page_data)
        .render();
    assert!(html.contains("<script>window.__PERSEUS_INITIAL_STATE = `None`</script>"));
}

#[test]
fn redirect_fallback_covers_no_scripts_and_no_wasm() {
    let html = HtmlShell::with_render_cfg("<head></head>".into(), "root", "{}", "")
        .locale_redirection_fallback("/en-US/about")
        .render();
    assert!(html.contains(
        "<noscript>\n        <meta http-equiv=\"refresh\" content=\"0; url=/en-US/about\" />\n    </noscript>"
    ));
    assert!(html.contains("window.location.replace(\"/en-US/about\");"));
    let boundary = html.find("<!--PERSEUS_INTERPOLATED_HEAD_BEGINS-->").unwrap();
    assert!(html.find("<noscript>").unwrap() > boundary);
}

#[test]
fn error_page_declares_the_error_as_state() {
    let error_page_data = ErrorPageData {
        url: "Made up URL".to_string(),
        status: 404,
        err: "page `not` found".to_string(),
    };
    let html = HtmlShell::with_render_cfg("</head><div id=\"root\">".into(), "root", "{}", "")
        .error_page(&error_page_data, "Page not found.")
        .render();
    assert!(html.contains(
        "<script>window.__PERSEUS_INITIAL_STATE = `error-{\"url\":\"Made up URL\",\"status\":404,\"err\":\"page \\`not\\` found\"}`;</script>"
    ));
    assert!(html.ends_with(
        "<div id=\"root\"><div id=\"__perseus_content_initial\" class=\"__perseus_content\">Page not found.</div>"
    ));
}

#[test]
fn error_page_data_is_written_as_serde_json_writes_it() {
    let error_page_data = ErrorPageData {
        url: "a \"quoted\" url".to_string(),
        status: 65535,
        err: "line\nbreak".to_string(),
    };
    let written = perseus::html_shell::error_page_json(&error_page_data);
    let parsed: serde_json::Value = serde_json::from_str(&written).unwrap();
    assert_eq!(parsed["url"], "a \"quoted\" url");
    assert_eq!(parsed["status"], 65535);
    assert_eq!(parsed["err"], "line\nbreak");
    assert_eq!(written, "{\"url\":\"a \\\"quoted\\\" url\",\"status\":65535,\"err\":\"line\\nbreak\"}");
}

#[test]
fn testing_mark_stands_after_the_render_configuration() {
    let html = HtmlShell::with_render_cfg("</head>".into(), "root", "{}", "")
        .testing()
        .render();
    assert!(html.contains(
        "<script type=\"module\">window.__PERSEUS_RENDER_CFG = '{}';\nwindow.__PERSEUS_TESTING = true;\n\n        import init"
    ));
}

#[test]
fn both_forms_of_the_root_element_take_the_content() {
    let page_data = PageData {
        content: "X".to_string(),
        state: None,
        head: String::new(),
    };
    let html = HtmlShell::with_render_cfg("<div id=\"r\"></div><div id='r'></div>".into(), "r", "{}", "")
        .page_data(&page_data)
        .render();
    let wrapped = "<div id=\"r\"><div id=\"__perseus_content_initial\" class=\"__perseus_content\">X</div>";
    assert_eq!(html, format!("{wrapped}</div>{wrapped}</div>"));
}
