use xeneon_core::shortcuts::visible_app_indices;

fn names(v: &[&str]) -> Vec<String> {
    v.iter().map(|s| s.to_string()).collect()
}

#[test]
fn an_empty_search_lists_every_app_by_lowercased_name() {
    let apps = names(&["Firefox", "calculator", "Terminal", "Bottles"]);
    assert_eq!(visible_app_indices(&apps, ""), vec![3, 1, 0, 2]);
    assert_eq!(visible_app_indices(&apps, "   "), vec![3, 1, 0, 2]);
}

#[test]
fn the_search_is_trimmed_lowercased_and_matched_anywhere() {
    let apps = names(&["Firefox", "calculator", "Terminal", "Bottles", "LibreOffice Calc"]);
    assert_eq!(visible_app_indices(&apps, "  CALC "), vec![1, 4]);
    assert_eq!(visible_app_indices(&apps, "fox"), vec![0]);
    assert_eq!(visible_app_indices(&apps, "zzz"), Vec::<usize>::new());
}

#[test]
fn equal_names_keep_their_own_order() {
    let apps = names(&["Files", "files", "Archive", "FILES"]);
    assert_eq!(visible_app_indices(&apps, "fil"), vec![0, 1, 3]);
    assert_eq!(visible_app_indices(&apps, ""), vec![2, 0, 1, 3]);
}
