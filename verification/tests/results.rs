use testresult::TestResult;

fn succeeding_helper() -> TestResult<String> {
    let parsed = String::from_utf8(vec![104, 105])?;
    Ok(parsed)
}

#[test]
fn success_passes_through() -> TestResult {
    let value = succeeding_helper()?;
    assert_eq!(value, "hi");
    Ok(())
}
