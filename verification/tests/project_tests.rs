use usgs_data2csv::error::{ConfigFault, PipelineError};
use usgs_data2csv::project::{pick_columns, render_header, render_row};

fn row(items: &[&str]) -> Vec<String> {
    items.iter().map(|s| s.to_string()).collect()
}

#[test]
fn projection_follows_the_listed_order() {
    let record = row(&["a", "b", "c", "d"]);
    assert_eq!(render_row(&record, &Some(vec![3, 1, 3]), ','), "c,a,c");
}

#[test]
fn projection_may_repeat_and_omit_columns() {
    let record = row(&["a", "b", "c", "d"]);
    assert_eq!(pick_columns(&record, &vec![4, 4, 2]), row(&["d", "d", "b"]));
    assert_eq!(pick_columns(&record, &vec![]), row(&[]));
}

#[test]
fn columns_that_the_record_lacks_are_absent() {
    let record = row(&["a", "b"]);
    assert_eq!(pick_columns(&record, &vec![1, 3, 2, 0]), row(&["a", "b"]));
    assert_eq!(render_row(&record, &Some(vec![5, 2, 9]), ','), "b");
    assert_eq!(render_row(&record, &Some(vec![5]), ','), "");
}

#[test]
fn without_projection_the_whole_record_is_written() {
    assert_eq!(render_row(&row(&["a", "b", "c"]), &None, ','), "a,b,c");
    assert_eq!(render_row(&row(&["a", "b", "c"]), &None, ';'), "a;b;c");
    assert_eq!(render_row(&row(&["a"]), &None, ','), "a");
    assert_eq!(render_row(&row(&[]), &None, ','), "");
    assert_eq!(render_row(&row(&["", ""]), &None, ','), ",");
}

#[test]
fn projected_width_is_the_number_of_columns() {
    let record = row(&["a", "b", "c"]);
    for columns in [vec![1], vec![3, 2, 1], vec![2, 2, 2, 2]] {
        assert_eq!(pick_columns(&record, &columns).len(), columns.len());
    }
}

#[test]
fn header_is_the_names_joined() {
    assert_eq!(render_header(&row(&["x", "y"]), &None, 2, ','), Ok("x,y".to_string()));
    assert_eq!(render_header(&row(&["x", "y"]), &None, 2, '\t'), Ok("x\ty".to_string()));
    assert_eq!(
        render_header(&row(&[" x ", "y,z"]), &Some(vec![4, 1]), 7, ','),
        Ok(" x ,y,z".to_string())
    );
}

#[test]
fn header_needs_one_name_for_each_output_column() {
    assert_eq!(
        render_header(&row(&["x", "y"]), &None, 3, ','),
        Err(PipelineError::Configuration(ConfigFault::HeaderNames { names: 2, columns: 3 }))
    );
    assert_eq!(
        render_header(&row(&["x", "y"]), &Some(vec![1]), 2, ','),
        Err(PipelineError::Configuration(ConfigFault::HeaderNames { names: 2, columns: 1 }))
    );
}

#[test]
fn line_agrees_with_the_join_of_std() {
    let records =
        [row(&[]), row(&["a"]), row(&["a", "b"]), row(&["", "", ""]), row(&["é", "ü,ö"])];
    for record in records {
        assert_eq!(render_row(&record, &None, ','), record.join(","));
        assert_eq!(render_row(&record, &None, '\t'), record.join("\t"));
    }
}
