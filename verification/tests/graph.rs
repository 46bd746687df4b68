use gnuplot_rs::enums::XAxes2d;
use gnuplot_rs::enums::YAxes2d;
use gnuplot_rs::graph::label_plot_data;
use gnuplot_rs::graph::parallel_plot_data;
use gnuplot_rs::graph::parse_plot_data;
use gnuplot_rs::graph::value_plot_data;
use gnuplot_rs::graph::Graph;
use gnuplot_rs::graph::GraphStyles;
use gnuplot_rs::graph::RangeBound;
use gnuplot_rs::number::Number;

fn n(x: f64) -> Number {
    Number::parse(&x.to_string()).unwrap()
}

fn row<const N: usize>(values: [f64; N]) -> [Number; N] {
    values.map(n)
}

fn values(xs: &[f64]) -> Vec<Number> {
    xs.iter().map(|x| n(*x)).collect()
}

fn keyword(style: GraphStyles) -> Option<&'static str> {
    style.style_keyword()
}

#[test]
fn axes_have_their_names() {
    assert_eq!(XAxes2d::X1.to_string(), "x1");
    assert_eq!(XAxes2d::X2.to_string(), "x2");
    assert_eq!(YAxes2d::Y1.to_string(), "y1");
    assert_eq!(YAxes2d::Y2.to_string(), "y2");
}

#[test]
fn title_escapes_double_quotes_then_single_quotes() {
    let graph = Graph::new(GraphStyles::Lines2dExpr("x")).title("\"'\"");
    assert_eq!(graph.get_title(), "\\\"\\'\\\"");
    let graph = graph.title("\"\" and ''");
    assert_eq!(graph.get_title(), "\\\"\\\" and \\'\\'");
    let graph = graph.title("Hello gnuplot-rs'");
    assert_eq!(graph.get_title(), "Hello gnuplot-rs\\'");
    let graph = graph.title("plain");
    assert_eq!(graph.get_title(), "plain");
}

#[test]
fn every_quote_of_an_escaped_title_has_one_backslash() {
    for title in ["\"'\"", "''\"\"", "a'b\"c", "'", "\"", "no quotes", "back\\slash 'q'"] {
        let graph = Graph::new(GraphStyles::Lines2dExpr("x")).title(title);
        let escaped: Vec<char> = graph.get_title().chars().collect();
        for (i, c) in escaped.iter().enumerate() {
            if *c == '"' || *c == '\'' {
                assert!(i >= 1 && escaped[i - 1] == '\\', "{:?}", title);
                assert!(i < 2 || escaped[i - 2] != '\\', "{:?}", title);
            }
        }
        let plain: String = title.chars().filter(|c| *c == '"' || *c == '\'').collect();
        let kept: String = escaped.iter().filter(|c| **c == '"' || **c == '\'').collect();
        assert_eq!(plain, kept);
    }
}

#[test]
fn set_title_escapes_as_title_does() {
    let mut graph = Graph::new(GraphStyles::Lines2dExpr("x"));
    graph.set_title("it's \"x\"");
    assert_eq!(graph.get_title(), "it\\'s \\\"x\\\"");
}

#[test]
fn a_title_shows_in_the_fragment() {
    let graph = Graph::new(GraphStyles::Lines2dExpr("sin(x)")).title("sine");
    assert_eq!(graph.plot_arg(), "sin(x) axes x1y1 with lines title 'sine'");
    let graph = graph.title("it's");
    assert_eq!(graph.plot_arg(), "sin(x) axes x1y1 with lines title 'it\\'s'");
    let graph = graph.title("");
    assert_eq!(graph.plot_arg(), "sin(x) axes x1y1 with lines");
}

#[test]
fn a_new_graph_has_the_first_axes_and_no_title() {
    let graph = Graph::new(GraphStyles::Boxes(vec![row([1.0, 2.0, 3.0])]));
    assert_eq!(graph.get_title(), "");
    assert!(matches!(graph.get_axes(), (XAxes2d::X1, YAxes2d::Y1)));
    assert!(matches!(
        graph.get_range(),
        (RangeBound::Unbounded, RangeBound::Unbounded)
    ));
    assert_eq!(graph.plot_arg(), "'-' axes x1y1 with boxes");
    assert!(!graph.plot_arg().contains(" title "));
}

#[test]
fn axes_replace_the_axis_pair() {
    let graph = Graph::new(GraphStyles::Lines2dExpr("x")).axes(XAxes2d::X2, YAxes2d::Y2);
    assert!(matches!(graph.get_axes(), (XAxes2d::X2, YAxes2d::Y2)));
    assert_eq!(graph.plot_arg(), "x axes x2y2 with lines");
    let graph = graph.axes(XAxes2d::X1, YAxes2d::Y2);
    assert_eq!(graph.plot_arg(), "x axes x1y2 with lines");
}

#[test]
fn range_replaces_both_ends() {
    let graph = Graph::new(GraphStyles::Lines2dExpr("x"))
        .range(RangeBound::Included(n(0.0)), RangeBound::Excluded(n(2.5)));
    match graph.get_range() {
        (RangeBound::Included(a), RangeBound::Excluded(b)) => {
            assert_eq!(a.as_str(), "0");
            assert_eq!(b.as_str(), "2.5");
        }
        _ => panic!("the range was not kept"),
    }
    assert_eq!(graph.plot_arg(), "x axes x1y1 with lines");

    let mut graph = graph;
    graph.set_range(RangeBound::Unbounded, RangeBound::Included(n(-1.0)));
    match graph.get_range() {
        (RangeBound::Unbounded, RangeBound::Included(b)) => assert_eq!(b.as_str(), "-1"),
        _ => panic!("the range was not kept"),
    }
}

#[test]
fn styles_with_rows_have_their_keywords() {
    assert_eq!(keyword(GraphStyles::Lines2d(vec![])), Some("lines"));
    assert_eq!(keyword(GraphStyles::Dots2d(vec![])), Some("dots"));
    assert_eq!(keyword(GraphStyles::Points2d(vec![])), Some("points"));
    assert_eq!(keyword(GraphStyles::LinesPoints2d(vec![])), Some("linespoints"));
    assert_eq!(keyword(GraphStyles::Impulses2d(vec![])), Some("impulses"));
    assert_eq!(keyword(GraphStyles::Vectors2d(vec![])), Some("vectors"));
    assert_eq!(keyword(GraphStyles::Labels2d(vec![])), Some("labels"));
    assert_eq!(keyword(GraphStyles::Steps(vec![])), Some("steps"));
    assert_eq!(keyword(GraphStyles::FSteps(vec![])), Some("fsteps"));
    assert_eq!(keyword(GraphStyles::YErrorBars(vec![])), Some("yerrorbars"));
    assert_eq!(keyword(GraphStyles::XErrorBars(vec![])), Some("xerrorbars"));
    assert_eq!(keyword(GraphStyles::XYErrorBars(vec![])), Some("xyerrorbars"));
    assert_eq!(keyword(GraphStyles::YErrorLines(vec![])), Some("yerrorlines"));
    assert_eq!(keyword(GraphStyles::XErrorLines(vec![])), Some("xerrorlines"));
    assert_eq!(keyword(GraphStyles::XYErrorLines(vec![])), Some("xyerrorlines"));
    assert_eq!(keyword(GraphStyles::FinanceBars(vec![])), Some("financebars"));
    assert_eq!(keyword(GraphStyles::ParallelAxes(vec![], 1)), Some("parallelaxes"));
    assert_eq!(keyword(GraphStyles::Boxes(vec![])), Some("boxes"));
    assert_eq!(keyword(GraphStyles::BoxPlot(vec![])), Some("boxplot"));
    assert_eq!(keyword(GraphStyles::BoxXYError(vec![])), Some("boxxyerror"));
    assert_eq!(keyword(GraphStyles::Candlesticks(vec![])), Some("candlesticks"));
    assert_eq!(keyword(GraphStyles::Circles(vec![])), Some("circles"));
    assert_eq!(keyword(GraphStyles::Ellipses(vec![])), Some("ellipses"));
    assert_eq!(keyword(GraphStyles::BoxErrorBars(vec![])), Some("boxerrorbars"));
    assert_eq!(keyword(GraphStyles::HistogramsClustered(vec![], n(1.0))), Some("histograms"));
    assert_eq!(keyword(GraphStyles::HistogramsErrorBars(vec![], n(1.0))), Some("histograms"));
    assert_eq!(keyword(GraphStyles::HistogramsColumnStacked(vec![])), Some("histograms"));
    assert_eq!(keyword(GraphStyles::HistogramsRowStacked(vec![])), Some("histograms"));
}

#[test]
fn styles_with_an_expression_have_their_keywords() {
    assert_eq!(keyword(GraphStyles::Lines2dExpr("x")), Some("lines"));
    assert_eq!(keyword(GraphStyles::Dots2dExpr("x")), Some("dots"));
    assert_eq!(keyword(GraphStyles::Points2dExpr("x")), Some("points"));
    assert_eq!(keyword(GraphStyles::LinesPoints2dExpr("x")), Some("linespoints"));
    assert_eq!(keyword(GraphStyles::Impulses2dExpr("x")), Some("impulses"));
    assert_eq!(keyword(GraphStyles::StepsExpr("x")), Some("steps"));
    assert_eq!(keyword(GraphStyles::FStepsExpr("x")), Some("fsteps"));
}

#[test]
fn styles_without_a_lowering_are_not_drawable() {
    let styles = vec![
        GraphStyles::Lines3d(vec![]),
        GraphStyles::Dots3d(vec![]),
        GraphStyles::Points3d(vec![]),
        GraphStyles::LinesPoint3d(vec![]),
        GraphStyles::Impulses3d(vec![]),
        GraphStyles::Vectors3d(vec![]),
        GraphStyles::Labels3d(vec![]),
        GraphStyles::Histeps(vec![]),
        GraphStyles::HistepsExpr("x"),
        GraphStyles::FillSteps(vec![]),
        GraphStyles::RGBAlpha,
        GraphStyles::Filledcurves,
        GraphStyles::Image,
        GraphStyles::RGBImage,
        GraphStyles::PM3d,
        GraphStyles::ZErrorFill,
    ];
    for style in styles {
        assert_eq!(style.style_keyword(), None);
        assert!(!style.is_drawable());
    }
}

#[test]
fn styles_with_a_lowering_are_drawable() {
    assert!(GraphStyles::Lines2d(vec![]).is_drawable());
    assert!(GraphStyles::Lines2dExpr("x").is_drawable());
    assert!(GraphStyles::Labels2d(vec![]).is_drawable());
    assert!(GraphStyles::HistogramsRowStacked(vec![]).is_drawable());
    assert!(GraphStyles::ParallelAxes(values(&[1.0, 2.0]), 1).is_drawable());
    assert!(GraphStyles::ParallelAxes(values(&[1.0, 2.0]), 5).is_drawable());
}

#[test]
fn parallel_axes_need_a_value_for_each_point() {
    assert!(!GraphStyles::ParallelAxes(values(&[1.0, 2.0]), 0).is_drawable());
    assert!(!GraphStyles::ParallelAxes(vec![], 0).is_drawable());
}

#[test]
fn an_expression_is_plotted_without_its_whitespace() {
    let style = GraphStyles::Points2dExpr(" sin( x )\t* 2\n");
    assert_eq!(style.plot_token(), "sin(x)*2");
    assert_eq!(style.data_text(), None);
    assert_eq!(style.pre_plot_text(), None);
    let graph = Graph::new(GraphStyles::StepsExpr("x ** 2"));
    assert_eq!(graph.plot_arg(), "x**2 axes x1y1 with steps");
}

#[test]
fn data_are_plotted_from_what_follows_the_command() {
    assert_eq!(GraphStyles::Lines2d(vec![]).plot_token(), "'-'");
    assert_eq!(GraphStyles::ParallelAxes(vec![], 1).plot_token(), "'-'");
    assert_eq!(GraphStyles::HistogramsRowStacked(vec![]).plot_token(), "'-'");
}

#[test]
fn rows_of_each_width_have_a_line_each() {
    assert_eq!(
        parse_plot_data(&vec![row([0.0, 0.0]), row([5.0, 5.0])]),
        "0 0 \n5 5 \n"
    );
    assert_eq!(parse_plot_data(&vec![row([1.0, 2.0, 3.0])]), "1 2 3 \n");
    assert_eq!(
        parse_plot_data(&vec![row([1.0, 2.0, 0.5, -0.25]), row([3.0, 4.0, 1.0, 1.0])]),
        "1 2 0.5 -0.25 \n3 4 1 1 \n"
    );
    assert_eq!(parse_plot_data(&vec![row([1.0, 2.0, 3.0, 4.0, 5.0])]), "1 2 3 4 5 \n");
    assert_eq!(
        parse_plot_data(&vec![row([1.0, 2.0, 3.0, 4.0, 5.0, 6.0])]),
        "1 2 3 4 5 6 \n"
    );
    assert_eq!(parse_plot_data::<2>(&vec![]), "");
}

#[test]
fn a_block_of_rows_has_a_line_for_each_row_and_a_word_for_each_number() {
    let data = vec![
        row([1.5, -2.0, 3.0, 4.0]),
        row([0.0, f64::NAN, f64::INFINITY, f64::NEG_INFINITY]),
        row([1e21, 1e-7, 5.0, 6.0]),
    ];
    let block = parse_plot_data(&data);
    assert!(block.ends_with('\n'));
    let lines: Vec<&str> = block.split_terminator('\n').collect();
    assert_eq!(lines.len(), 3);
    for (line, numbers) in lines.iter().zip(data.iter()) {
        assert!(line.ends_with(' '));
        let words: Vec<&str> = line.split_terminator(' ').collect();
        assert_eq!(words.len(), 4);
        for (word, number) in words.iter().zip(numbers.iter()) {
            assert_eq!(*word, number.as_str());
        }
    }
}

#[test]
fn every_style_with_rows_writes_its_rows() {
    let two = || vec![row([1.0, 2.0])];
    let three = || vec![row([1.0, 2.0, 3.0])];
    let four = || vec![row([1.0, 2.0, 3.0, 4.0])];
    let five = || vec![row([1.0, 2.0, 3.0, 4.0, 5.0])];
    let six = || vec![row([1.0, 2.0, 3.0, 4.0, 5.0, 6.0])];
    let styles = vec![
        (GraphStyles::Lines2d(two()), "1 2 \n"),
        (GraphStyles::Dots2d(two()), "1 2 \n"),
        (GraphStyles::Points2d(two()), "1 2 \n"),
        (GraphStyles::LinesPoints2d(two()), "1 2 \n"),
        (GraphStyles::Impulses2d(two()), "1 2 \n"),
        (GraphStyles::Steps(two()), "1 2 \n"),
        (GraphStyles::FSteps(two()), "1 2 \n"),
        (GraphStyles::Boxes(three()), "1 2 3 \n"),
        (GraphStyles::HistogramsErrorBars(three(), n(1.0)), "1 2 3 \n"),
        (GraphStyles::Vectors2d(four()), "1 2 3 4 \n"),
        (GraphStyles::YErrorBars(four()), "1 2 3 4 \n"),
        (GraphStyles::XErrorBars(four()), "1 2 3 4 \n"),
        (GraphStyles::YErrorLines(four()), "1 2 3 4 \n"),
        (GraphStyles::XErrorLines(four()), "1 2 3 4 \n"),
        (GraphStyles::BoxPlot(four()), "1 2 3 4 \n"),
        (GraphStyles::FinanceBars(five()), "1 2 3 4 5 \n"),
        (GraphStyles::Ellipses(five()), "1 2 3 4 5 \n"),
        (GraphStyles::BoxErrorBars(five()), "1 2 3 4 5 \n"),
        (GraphStyles::Candlesticks(five()), "1 2 3 4 5 \n"),
        (GraphStyles::Circles(five()), "1 2 3 4 5 \n"),
        (GraphStyles::XYErrorBars(six()), "1 2 3 4 5 6 \n"),
        (GraphStyles::XYErrorLines(six()), "1 2 3 4 5 6 \n"),
        (GraphStyles::BoxXYError(six()), "1 2 3 4 5 6 \n"),
    ];
    for (style, block) in styles {
        assert_eq!(style.plot_token(), "'-'");
        assert_eq!(style.data_text(), Some(String::from(block)));
    }
}

#[test]
fn labelled_points_have_their_label_at_the_end_of_the_line() {
    let data = vec![(row([1.0, 2.0]), "first point"), (row([3.5, 4.0]), "second")];
    assert_eq!(label_plot_data(&data), "1 2 first point\n3.5 4 second\n");
    assert_eq!(
        GraphStyles::Labels2d(data).data_text(),
        Some(String::from("1 2 first point\n3.5 4 second\n"))
    );
    assert_eq!(label_plot_data::<2>(&vec![]), "");
}

#[test]
fn single_values_have_a_line_each() {
    assert_eq!(value_plot_data(&values(&[1.0, 2.0, 3.0])), "1\n2\n3\n");
    assert_eq!(value_plot_data(&vec![]), "");
}

#[test]
fn parallel_axes_break_the_line_after_each_point() {
    assert_eq!(parallel_plot_data(&values(&[1.0, 2.0, 3.0, 4.0]), 2), "1 2\n3 4\n");
    assert_eq!(
        parallel_plot_data(&values(&[1.0, 2.0, 3.0, 4.0, 5.0, 6.0]), 3),
        "1 2 3\n4 5 6\n"
    );
    assert_eq!(parallel_plot_data(&values(&[1.0, 2.0, 3.0]), 1), "1\n2\n3\n");
    assert_eq!(parallel_plot_data(&vec![], 3), "");
}

#[test]
fn parallel_axes_leave_a_last_point_that_is_not_whole_open() {
    assert_eq!(parallel_plot_data(&values(&[1.0, 2.0, 3.0]), 2), "1 2\n3 ");
    assert_eq!(parallel_plot_data(&values(&[1.0, 2.0]), 5), "1 2 ");
}

#[test]
fn whole_points_on_parallel_axes_have_a_line_each() {
    let data = values(&[1.0, 2.5, -3.0, 4.0, 5.0, 6.0, 7.0, 8.0, 9.0, 10.0, 11.0, 12.0]);
    for width in [1usize, 2, 3, 4, 6, 12] {
        let block = parallel_plot_data(&data, width);
        let lines: Vec<&str> = block.split_terminator('\n').collect();
        assert!(block.ends_with('\n'));
        assert_eq!(lines.len(), 12 / width);
        for (k, line) in lines.iter().enumerate() {
            let words: Vec<&str> = line.split(' ').collect();
            assert_eq!(words.len(), width);
            for (j, word) in words.iter().enumerate() {
                assert_eq!(*word, data[k * width + j].as_str());
            }
        }
    }
    let style = GraphStyles::ParallelAxes(values(&[1.0, 2.0, 3.0, 4.0]), 2);
    assert_eq!(style.data_text(), Some(String::from("1 2\n3 4\n")));
    assert_eq!(style.pre_plot_text(), None);
}

#[test]
fn histograms_set_their_style_before_the_plot() {
    let clustered = GraphStyles::HistogramsClustered(values(&[1.0, 2.0]), n(2.0));
    assert_eq!(
        clustered.pre_plot_text(),
        Some(String::from("set style histogram clustered gap 2"))
    );
    assert_eq!(clustered.data_text(), Some(String::from("1\n2\n")));

    let bars = GraphStyles::HistogramsErrorBars(vec![row([1.0, 0.5, 1.5])], n(0.5));
    assert_eq!(
        bars.pre_plot_text(),
        Some(String::from("set style histogram errorbars gap 0.5"))
    );
    assert_eq!(bars.data_text(), Some(String::from("1 0.5 1.5 \n")));

    let columns = GraphStyles::HistogramsColumnStacked(values(&[1.0]));
    assert_eq!(
        columns.pre_plot_text(),
        Some(String::from("set style histogram columnstacked"))
    );
    assert_eq!(columns.data_text(), Some(String::from("1\n")));

    let rows = GraphStyles::HistogramsRowStacked(values(&[4.0, 5.0]));
    assert_eq!(
        rows.pre_plot_text(),
        Some(String::from("set style histogram rowstacked"))
    );
    assert_eq!(rows.data_text(), Some(String::from("4\n5\n")));
}

#[test]
fn other_styles_need_no_command_before_the_plot() {
    assert_eq!(GraphStyles::Lines2d(vec![]).pre_plot_text(), None);
    assert_eq!(GraphStyles::Labels2d(vec![]).pre_plot_text(), None);
    assert_eq!(GraphStyles::Lines2dExpr("x").pre_plot_text(), None);
}

#[test]
fn get_data_gives_the_style() {
    let graph = Graph::new(GraphStyles::Dots2dExpr("x"));
    assert!(matches!(graph.get_data(), GraphStyles::Dots2dExpr("x")));
}

#[test]
fn set_axes_takes_the_graph() {
    let graph = Graph::new(GraphStyles::Dots2dExpr("x"));
    graph.set_axes(XAxes2d::X2, YAxes2d::Y2);
}
