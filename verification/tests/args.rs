use slithergen::args::{output_format_from_str, Args, Difficulty, GridSize, OutputFormat};

fn default_args() -> Args {
    Args {
        radius: None,
        size: None,
        difficulty: None,
        output: String::from("./maps"),
        all: false,
        count: None,
        count_pos: None,
        load: None,
        display: false,
        format: OutputFormat::BinaryFull,
    }
}

#[test]
fn no_args_uses_all() {
    let args = default_args();
    let config = args.normalize();

    assert_eq!(config.count_per_task, 1);
    assert_eq!(config.output_dir, String::from("./maps"));
    // Should be all 4 sizes * 3 difficulties = 12 tasks
    assert_eq!(config.tasks.len(), 12);
}

#[test]
fn single_numeric_arg_implies_count_and_all() {
    let args = Args { count_pos: Some(5), ..default_args() };
    let config = args.normalize();

    assert_eq!(config.count_per_task, 5);
    assert_eq!(config.tasks.len(), 12); // All implied
}

#[test]
fn explicit_all_flag_sets_count_one() {
    let args = Args { all: true, ..default_args() };
    let config = args.normalize();

    assert_eq!(config.count_per_task, 1);
    assert_eq!(config.tasks.len(), 12);
}

#[test]
fn specific_size_filters_tasks() {
    let args = Args { size: Some(GridSize::Small), ..default_args() };
    let config = args.normalize();

    // Specific size, default difficulties (all 3)
    assert_eq!(config.tasks.len(), 3);
    for (r, _) in &config.tasks {
        assert_eq!(*r, GridSize::Small.radius());
    }
}

#[test]
fn specific_difficulty_filters_tasks() {
    let args = Args { difficulty: Some(Difficulty::Hard), ..default_args() };
    let config = args.normalize();

    // Default sizes (all 4), specific difficulty
    assert_eq!(config.tasks.len(), 4);
    for (_, d) in &config.tasks {
        assert_eq!(*d, Difficulty::Hard);
    }
}

#[test]
fn specific_size_and_diff_singles_task() {
    let args = Args {
        size: Some(GridSize::Huge),
        difficulty: Some(Difficulty::Easy),
        ..default_args()
    };
    let config = args.normalize();

    assert_eq!(config.tasks.len(), 1);
    assert_eq!(config.tasks[0], (GridSize::Huge.radius(), Difficulty::Easy));
}

#[test]
fn numeric_arg_with_filter_combines() {
    // "5 --size small"
    let args = Args { count_pos: Some(5), size: Some(GridSize::Small), ..default_args() };
    let config = args.normalize();

    assert_eq!(config.count_per_task, 5);
    // Small size, all difficulties (3)
    assert_eq!(config.tasks.len(), 3);
}

#[test]
fn custom_output_dir() {
    let args = Args { output: String::from("foo/bar"), ..default_args() };
    let config = args.normalize();
    assert_eq!(config.output_dir, String::from("foo/bar"));
}

#[test]
fn explicit_radius_takes_precedence_over_size() {
    let args = Args { radius: Some(6), size: Some(GridSize::Small), ..default_args() };
    let config = args.normalize();
    assert_eq!(config.tasks.len(), 3);
    for (r, _) in &config.tasks {
        assert_eq!(*r, 6);
    }
}

#[test]
fn task_order_is_difficulty_fastest() {
    let config = default_args().normalize();
    let radii = [2u8, 4, 8, 11];
    let diffs = [Difficulty::Easy, Difficulty::Medium, Difficulty::Hard];
    for i in 0..4 {
        for j in 0..3 {
            assert_eq!(config.tasks[i * 3 + j], (radii[i], diffs[j]));
        }
    }
}

#[test]
fn size_names_parse() {
    assert_eq!(GridSize::parse("small"), Some(GridSize::Small));
    assert_eq!(GridSize::parse("sm"), Some(GridSize::Small));
    assert_eq!(GridSize::parse("medium"), Some(GridSize::Medium));
    assert_eq!(GridSize::parse("med"), Some(GridSize::Medium));
    assert_eq!(GridSize::parse("large"), Some(GridSize::Large));
    assert_eq!(GridSize::parse("lg"), Some(GridSize::Large));
    assert_eq!(GridSize::parse("huge"), Some(GridSize::Huge));
    assert_eq!(GridSize::parse("yuge"), Some(GridSize::Huge));
    assert_eq!(GridSize::parse("tiny"), None);
}

#[test]
fn difficulty_names_parse() {
    assert_eq!(Difficulty::parse("easy"), Some(Difficulty::Easy));
    assert_eq!(Difficulty::parse("medium"), Some(Difficulty::Medium));
    assert_eq!(Difficulty::parse("hard"), Some(Difficulty::Hard));
    assert_eq!(Difficulty::parse("brutal"), None);
}

#[test]
fn output_format_names_parse() {
    assert_eq!(output_format_from_str("binary-full"), Some(OutputFormat::BinaryFull));
    assert_eq!(output_format_from_str("json"), None);
}

#[test]
fn all_lists_every_variant() {
    let sizes = GridSize::all();
    assert_eq!(
        sizes,
        vec![GridSize::Small, GridSize::Medium, GridSize::Large, GridSize::Huge]
    );
    let radii: Vec<u8> = sizes.iter().map(|s| s.radius()).collect();
    assert_eq!(radii, vec![2, 4, 8, 11]);
    assert_eq!(
        Difficulty::all(),
        vec![Difficulty::Easy, Difficulty::Medium, Difficulty::Hard]
    );
}
