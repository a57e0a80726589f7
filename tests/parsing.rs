use save_blog_server::{
    compose_document, extract_url_last_part, parse_html, remove_scheme_and_last_path_part_from_url,
    url_to_asset_to_be_downloaded, ArchiveScope, Placement, Task, TaskError,
};

fn scope_of(markers: &[&str]) -> ArchiveScope {
    ArchiveScope { host_markers: markers.iter().map(|m| m.to_string()).collect() }
}

#[test]
fn test_parse_html_a() {
    let html = r#"
    <ul>
        <a href="link1"></li>
        <a href="link2">Bar</li>
        <a href="link1">Baz</li>
    </ul>
"#;
    let parsed_html = parse_html(html, "url", &scope_of(&["link"]));
    assert_eq!(parsed_html.assets.len(), 2);
    assert_eq!(parsed_html.url, "url".to_string());
    assert_eq!(parsed_html.assets[0], "link1".to_string());
    assert_eq!(parsed_html.assets[1], "link2".to_string());
}

#[test]
fn test_parse_html_a_img() {
    let html = r#"
    <ul>
        <a href="link1"></li>
        <a href="link2">Bar</li>
        <a href="link1">Baz</li>
        <img src="link1">
        <img src="link3">
    </ul>
"#;
    let parsed_html = parse_html(html, "url", &scope_of(&["link"]));
    assert_eq!(parsed_html.assets.len(), 3);
    assert_eq!(parsed_html.url, "url".to_string());
    assert_eq!(parsed_html.assets[0], "link1".to_string());
    assert_eq!(parsed_html.assets[1], "link2".to_string());
    assert_eq!(parsed_html.assets[2], "link3".to_string());
}

#[test]
fn test_remove_scheme_and_last_path_part_from_url() {
    let url = "https://www.example.com/foo/bar/baz";
    let expected = "www.example.com/foo/bar";
    assert_eq!(remove_scheme_and_last_path_part_from_url(url), Some(expected.to_string()));
}

#[test]
fn test_extract_url_last_part() {
    let url = String::from("https://uh.com/ma/super/page/page_a_sauver.html");
    assert_eq!(extract_url_last_part(&url), "page_a_sauver.html".to_string());
}

#[test]
fn test_extract_url_last_part_no_slash() {
    let url = String::from("https://uh.com/ma/super/page");
    assert_eq!(extract_url_last_part(&url), "page".to_string());
}

#[test]
fn leaf_of_url_without_slash_is_the_url() {
    assert_eq!(extract_url_last_part("page.html"), "page.html".to_string());
    assert_eq!(extract_url_last_part(""), "".to_string());
}

#[test]
fn leaf_of_url_ending_in_slash_is_empty() {
    assert_eq!(extract_url_last_part("https://uh.com/ma/"), "".to_string());
}

#[test]
fn mirror_dir_of_short_urls() {
    assert_eq!(remove_scheme_and_last_path_part_from_url("https://uh.com/page.html"), Some("uh.com".to_string()));
    assert_eq!(remove_scheme_and_last_path_part_from_url("http://uh.com/a/b"), Some("uh.com/a".to_string()));
}

#[test]
fn mirror_dir_of_bare_host_fails() {
    assert_eq!(remove_scheme_and_last_path_part_from_url("https://uh.com"), None);
    assert_eq!(remove_scheme_and_last_path_part_from_url("https://uh.com/"), None);
}

#[test]
fn mirror_dir_without_scheme_fails() {
    assert_eq!(remove_scheme_and_last_path_part_from_url("uh.com/ma/page"), None);
    assert_eq!(remove_scheme_and_last_path_part_from_url("ftp://uh.com/ma/page"), None);
}

#[test]
fn filter_takes_site_assets() {
    let scope = ArchiveScope::site_family();
    assert!(url_to_asset_to_be_downloaded("https://benvenuti.e-monsite.com/medias/img.png", &scope));
    assert!(url_to_asset_to_be_downloaded("https://static.ekla.fr/style.css", &scope));
    assert!(url_to_asset_to_be_downloaded("https://bravissimi.com/a.js", &scope));
}

#[test]
fn filter_leaves_out_pages_and_foreign_hosts() {
    let scope = ArchiveScope::site_family();
    assert!(!url_to_asset_to_be_downloaded("https://benvenuti.e-monsite.com/index.html", &scope));
    assert!(!url_to_asset_to_be_downloaded("https://benvenuti.e-monsite.com/pages/menu", &scope));
    assert!(!url_to_asset_to_be_downloaded("http://benvenuti.e-monsite.com/blog/post-1", &scope));
    assert!(!url_to_asset_to_be_downloaded("https://benvenuti.e-monsite.com/", &scope));
    assert!(!url_to_asset_to_be_downloaded("https://example.com/img.png", &scope));
}

#[test]
fn filter_section_needs_a_host_first() {
    let scope = ArchiveScope::site_family();
    assert!(url_to_asset_to_be_downloaded("https://benvenuti.e-monsite.com/medias/pages/x.png", &scope));
    assert!(url_to_asset_to_be_downloaded("https://benvenuti.e-monsite.com/pages/", &scope));
}

#[test]
fn iframe_pdf_is_left_out() {
    let html = r#"<iframe src="https://benvenuti.com/doc.pdf"></iframe><iframe src="https://benvenuti.com/video"></iframe>"#;
    let parsed = parse_html(html, "https://benvenuti.com/p.html", &ArchiveScope::site_family());
    assert_eq!(parsed.assets, vec!["https://benvenuti.com/video".to_string()]);
}

#[test]
fn anchored_pdf_is_kept() {
    let html = r#"<a href="https://benvenuti.com/doc.pdf">doc</a><iframe src="https://benvenuti.com/doc.pdf"></iframe>"#;
    let parsed = parse_html(html, "https://benvenuti.com/p.html", &ArchiveScope::site_family());
    assert_eq!(parsed.assets, vec!["https://benvenuti.com/doc.pdf".to_string()]);
}

#[test]
fn groups_come_in_fixed_order() {
    let html = r#"<source src="https://ekla.fr/s.ogg"><audio src="https://ekla.fr/a.mp3"></audio>
        <img src="https://ekla.fr/i.png"><link href="https://ekla.fr/l.css"><a href="https://ekla.fr/a.zip">z</a>"#;
    let parsed = parse_html(html, "https://ekla.fr/p.html", &ArchiveScope::site_family());
    assert_eq!(
        parsed.assets,
        vec![
            "https://ekla.fr/a.zip".to_string(),
            "https://ekla.fr/l.css".to_string(),
            "https://ekla.fr/i.png".to_string(),
            "https://ekla.fr/a.mp3".to_string(),
            "https://ekla.fr/s.ogg".to_string(),
        ]
    );
}

#[test]
fn page_itself_is_not_an_asset() {
    let html = r#"<a href="https://ekla.fr/page">self</a><a href="https://ekla.fr/other">o</a>"#;
    let parsed = parse_html(html, "https://ekla.fr/page", &ArchiveScope::site_family());
    assert_eq!(parsed.assets, vec!["https://ekla.fr/other".to_string()]);
}

#[test]
fn elements_without_the_attribute_are_skipped() {
    let html = r#"<a name="top">t</a><img alt="x"><a href="https://ekla.fr/z.png">z</a>"#;
    let parsed = parse_html(html, "u", &ArchiveScope::site_family());
    assert_eq!(parsed.assets, vec!["https://ekla.fr/z.png".to_string()]);
}

#[test]
fn document_wraps_head_and_body() {
    assert_eq!(
        compose_document("<title>t</title>", "<p>b</p>"),
        "<html>\n\n<head>\n<title>t</title>\n</head>\n\n<body>\n<p>b</p>\n</body>\n\n</html>".to_string()
    );
}

#[test]
fn page_task_is_planned_under_its_mirror_dir() {
    let url = String::from("https://uh.com/ma/super/page/page_a_sauver.html");
    let task = Task::Parse {
        url: url.clone(),
        body: String::from("<body>voilà le body</body>"),
        head: String::from("<head>voily le head</head>"),
    };
    assert_eq!(task.url(), url.as_str());
    match task.plan(&ArchiveScope::site_family()) {
        Ok(Placement::WritePage { dir, file, document, assets, page_url }) => {
            assert_eq!(dir, "uh.com/ma/super/page");
            assert_eq!(file, "uh.com/ma/super/page/page_a_sauver.html");
            assert_eq!(
                document,
                compose_document("<head>voily le head</head>", "<body>voilà le body</body>")
            );
            assert!(assets.is_empty());
            assert_eq!(page_url, url);
        }
        _ => panic!("page task was not planned as a page write"),
    }
}

#[test]
fn page_task_lists_its_assets() {
    let task = Task::Parse {
        url: String::from("https://benvenuti.e-monsite.com/pages/menu.html"),
        body: String::from(r#"<img src="https://benvenuti.e-monsite.com/medias/a.png">"#),
        head: String::from(r#"<link href="https://ekla.fr/s.css">"#),
    };
    match task.plan(&ArchiveScope::site_family()) {
        Ok(Placement::WritePage { assets, .. }) => {
            assert_eq!(
                assets,
                vec![
                    "https://ekla.fr/s.css".to_string(),
                    "https://benvenuti.e-monsite.com/medias/a.png".to_string()
                ]
            );
        }
        _ => panic!("page task was not planned as a page write"),
    }
}

#[test]
fn attach_task_goes_under_the_page_assets() {
    let task = Task::Attach {
        url: String::from("https://assets-test.com/mon/super/asset"),
        file_path: String::from("test/tmp/path/to/file/asset.txt"),
        page_url: String::from("https://uh.com/ma/super/page/page_a_sauver.html"),
    };
    assert_eq!(task.url(), "https://assets-test.com/mon/super/asset");
    match task.plan(&ArchiveScope::site_family()) {
        Ok(Placement::CopyAsset { dir, target, source, page_url }) => {
            assert_eq!(dir, "uh.com/ma/super/page/assets/assets-test.com/mon/super");
            assert_eq!(target, "uh.com/ma/super/page/assets/assets-test.com/mon/super/asset");
            assert_eq!(source, "test/tmp/path/to/file/asset.txt");
            assert_eq!(page_url, "https://uh.com/ma/super/page/page_a_sauver.html");
        }
        _ => panic!("attach task was not planned as a copy"),
    }
}

#[test]
fn unmappable_urls_fail_with_path_extraction() {
    let scope = ArchiveScope::site_family();
    let page = Task::Parse { url: String::from("https://uh.com"), body: String::new(), head: String::new() };
    assert!(matches!(page.plan(&scope), Err(TaskError::PathExtraction)));
    let bad_page = Task::Attach {
        url: String::from("https://a.com/x/y"),
        file_path: String::from("f"),
        page_url: String::from("uh.com/page"),
    };
    assert!(matches!(bad_page.plan(&scope), Err(TaskError::PathExtraction)));
    let bad_asset = Task::Attach {
        url: String::from("https://a.com"),
        file_path: String::from("f"),
        page_url: String::from("https://uh.com/ma/page.html"),
    };
    assert!(matches!(bad_asset.plan(&scope), Err(TaskError::PathExtraction)));
}
