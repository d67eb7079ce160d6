use instruckt::project::{is_excluded_dir, is_source_extension, select_source_files, WalkEntry, MAX_DEPTH};

fn entry(p: &str, is_file: bool) -> WalkEntry {
    WalkEntry { relative_path: p.into(), is_file }
}

#[test]
fn excluded_directories() {
    for d in ["node_modules", "dist", "build", ".git", ".next", ".nuxt", ".svelte-kit", "target", ".turbo", "coverage", "__pycache__"] {
        assert!(is_excluded_dir(d), "{d}");
    }
    assert!(!is_excluded_dir("src"));
    assert!(!is_excluded_dir("Node_modules"));
    assert_eq!(MAX_DEPTH, 6);
}

#[test]
fn source_extensions() {
    for e in ["ts", "tsx", "js", "jsx", "vue", "svelte", "html", "css", "scss", "json", "md"] {
        assert!(is_source_extension(e), "{e}");
    }
    assert!(!is_source_extension("rs"));
    assert!(!is_source_extension(""));
}

#[test]
fn selects_sorted_source_files() {
    let files = select_source_files(vec![
        entry("", false),
        entry("src", false),
        entry("src/main.ts", true),
        entry("README.md", true),
        entry("src/App.vue", true),
        entry("src/lib.rs", true),
        entry("index.html", true),
        entry("src/styles", false),
        entry("src/styles/app.css", true),
        entry("noext", true),
        entry("a.ts", false),
        entry("", true),
        entry("B.json", true),
    ]);
    assert_eq!(
        files,
        vec!["B.json", "README.md", "index.html", "src/App.vue", "src/main.ts", "src/styles/app.css"]
    );
}

#[test]
fn sort_matches_string_order() {
    let names = ["b.ts", "a.ts", "ä.ts", "A.ts", "a/b.ts", "a.tsx", "z.md", "a-b.ts", "a.ts"];
    let files = select_source_files(names.iter().map(|n| entry(n, true)).collect());
    let mut expected: Vec<String> = names.iter().map(|s| s.to_string()).collect();
    expected.sort();
    assert_eq!(files, expected);
}

#[test]
fn distinct_paths_come_out_strictly_increasing() {
    let names = ["src/z.ts", "src/a.ts", "index.html", "src/a.tsx", "B.css"];
    let files = select_source_files(names.iter().map(|n| entry(n, true)).collect());
    assert_eq!(files.len(), names.len());
    assert!(files.windows(2).all(|w| w[0] < w[1]));
}
