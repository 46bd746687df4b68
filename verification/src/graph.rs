//! A series to plot: its style and data, and how it is lowered to the
//! renderer's command language.
use vstd::prelude::*;
use crate::enums::XAxes2d;
use crate::enums::YAxes2d;
use crate::number::is_number;
use crate::number::lemma_number_is_one_word;
use crate::number::Number;
use crate::plot_canvas::script;
use crate::plot_canvas::PlotCanvas;
use crate::text::escape;
use crate::text::escaped_title;
use crate::text::free_of;
use crate::text::lemma_pieces_of_terminated;
use crate::text::lemma_separated_terminated;
use crate::text::lemma_terminated_free_of;
use crate::text::lemma_terminated_push;
use crate::text::pieces;
use crate::text::separated;
use crate::text::remove_whitespace;
use crate::text::terminated;
use crate::text::without_whitespace;

verus! {

/// The styles in which a series can be drawn, each with its data: rows of
/// numbers, an expression in the renderer's language, or nothing.
pub enum GraphStyles {
    Lines2d(Vec<[Number; 2]>),
    Lines2dExpr(&'static str),
    Lines3d(Vec<[Number; 3]>),
    Dots2d(Vec<[Number; 2]>),
    Dots2dExpr(&'static str),
    Dots3d(Vec<[Number; 3]>),
    Points2d(Vec<[Number; 2]>),
    Points2dExpr(&'static str),
    Points3d(Vec<[Number; 3]>),
    LinesPoints2d(Vec<[Number; 2]>),
    LinesPoints2dExpr(&'static str),
    LinesPoint3d(Vec<[Number; 3]>),
    Impulses2d(Vec<[Number; 2]>),
    Impulses2dExpr(&'static str),
    Impulses3d(Vec<[Number; 3]>),
    Vectors2d(Vec<[Number; 4]>),
    Vectors3d(Vec<[Number; 6]>),
    Labels2d(Vec<([Number; 2], &'static str)>),
    Labels3d(Vec<([Number; 3], &'static str)>),
    Steps(Vec<[Number; 2]>),
    StepsExpr(&'static str),
    FSteps(Vec<[Number; 2]>),
    FStepsExpr(&'static str),
    Histeps(Vec<[Number; 2]>),
    HistepsExpr(&'static str),
    YErrorBars(Vec<[Number; 4]>),
    XErrorBars(Vec<[Number; 4]>),
    XYErrorBars(Vec<[Number; 6]>),
    YErrorLines(Vec<[Number; 4]>),
    XErrorLines(Vec<[Number; 4]>),
    XYErrorLines(Vec<[Number; 6]>),
    FinanceBars(Vec<[Number; 5]>),
    /// The values of all points in one row, and how many values make a point.
    ParallelAxes(Vec<Number>, usize),
    Boxes(Vec<[Number; 3]>),
    BoxPlot(Vec<[Number; 4]>),
    Ellipses(Vec<[Number; 5]>),
    /// The values, and the gap between clusters.
    HistogramsClustered(Vec<Number>, Number),
    HistogramsRowStacked(Vec<Number>),
    HistogramsColumnStacked(Vec<Number>),
    /// The values with their errors, and the gap between clusters.
    HistogramsErrorBars(Vec<[Number; 3]>, Number),
    RGBAlpha,
    BoxErrorBars(Vec<[Number; 5]>),
    Candlesticks(Vec<[Number; 5]>),
    Filledcurves,
    Image,
    RGBImage,
    BoxXYError(Vec<[Number; 6]>),
    Circles(Vec<[Number; 5]>),
    FillSteps(Vec<[Number; 2]>),
    PM3d,
    ZErrorFill,
}

/// The notations of the numbers of `row`, in order.
pub open spec fn notations(row: Seq<Number>) -> Seq<Seq<char>> {
    row.map_values(|n: Number| n@)
}

/// One line of a data block without its line break: each number of the row
/// followed by a space.
pub open spec fn row_line(row: Seq<Number>) -> Seq<char> {
    terminated(notations(row), seq![' '])
}

/// The lines of a data block of rows, without their line breaks.
pub open spec fn row_lines<const N: usize>(rows: Seq<[Number; N]>) -> Seq<Seq<char>> {
    rows.map_values(|row: [Number; N]| row_line(row@))
}

/// The data block of rows of numbers: one line for each row.
pub open spec fn numeric_block<const N: usize>(rows: Seq<[Number; N]>) -> Seq<char> {
    terminated(row_lines(rows), seq!['\n'])
}

/// The lines of a data block of labelled points, without their line breaks:
/// the point's coordinates, each followed by a space, then the label.
pub open spec fn label_lines<const N: usize>(points: Seq<([Number; N], &'static str)>) -> Seq<
    Seq<char>,
> {
    points.map_values(|p: ([Number; N], &'static str)| row_line(p.0@) + p.1@)
}

/// The data block of labelled points: one line for each point.
pub open spec fn label_block<const N: usize>(points: Seq<([Number; N], &'static str)>) -> Seq<
    char,
> {
    terminated(label_lines(points), seq!['\n'])
}

/// The data block of single values: one value on each line.
pub open spec fn value_block(values: Seq<Number>) -> Seq<char> {
    terminated(notations(values), seq!['\n'])
}

/// The data block of points on parallel axes: the values in order, each
/// followed by a space, but every `width`-th of them by a line break.
pub open spec fn parallel_block(values: Seq<Seq<char>>, width: nat) -> Seq<char>
    decreases values.len(),
{
    if values.len() == 0 {
        Seq::empty()
    } else {
        parallel_block(values.drop_last(), width) + values.last() + seq![
            if values.len() % width == 0 {
                '\n'
            } else {
                ' '
            },
        ]
    }
}

/// Appends to `out` the line of `row`, without a line break.
fn push_row(out: &mut String, row: &[Number])
    ensures
        final(out)@ == old(out)@ + row_line(row@),
{
    let mut j: usize = 0;
    while j < row.len()
        invariant
            j <= row.len(),
            out@ == old(out)@ + row_line(row@.take(j as int)),
        decreases row.len() - j,
    {
        proof {
            let done = notations(row@.take(j + 1));
            assert(done.drop_last() == notations(row@.take(j as int)));
            assert(done.last() == row@[j as int]@);
        }
        out.append(row[j].as_str());
        out.push(' ');
        j += 1;
    }
    assert(row@.take(row.len() as int) == row@);
}

/// Writes the data block of rows of numbers: for each row one line, which
/// holds the row's numbers, each followed by a space.
pub fn parse_plot_data<const N: usize>(data: &Vec<[Number; N]>) -> (out: String)
    ensures
        out@ == numeric_block(data@),
{
    let mut out = String::new();
    let mut i: usize = 0;
    while i < data.len()
        invariant
            i <= data.len(),
            out@ == numeric_block(data@.take(i as int)),
        decreases data.len() - i,
    {
        proof {
            let done = row_lines(data@.take(i + 1));
            assert(done.drop_last() == row_lines(data@.take(i as int)));
            assert(done.last() == row_line(data@[i as int]@));
        }
        push_row(&mut out, data[i].as_slice());
        out.push('\n');
        i += 1;
    }
    assert(data@.take(data.len() as int) == data@);
    out
}

/// Writes the data block of labelled points: for each point one line, which
/// holds the point's coordinates, each followed by a space, and then its
/// label.
pub fn label_plot_data<const N: usize>(data: &Vec<([Number; N], &'static str)>) -> (out: String)
    ensures
        out@ == label_block(data@),
{
    let mut out = String::new();
    let mut i: usize = 0;
    while i < data.len()
        invariant
            i <= data.len(),
            out@ == label_block(data@.take(i as int)),
        decreases data.len() - i,
    {
        proof {
            let done = label_lines(data@.take(i + 1));
            assert(done.drop_last() == label_lines(data@.take(i as int)));
            assert(done.last() == row_line(data@[i as int].0@) + data@[i as int].1@);
        }
        push_row(&mut out, data[i].0.as_slice());
        out.append(data[i].1);
        out.push('\n');
        i += 1;
    }
    assert(data@.take(data.len() as int) == data@);
    out
}

/// Writes the data block of single values: each value on a line of its own.
pub fn value_plot_data(data: &Vec<Number>) -> (out: String)
    ensures
        out@ == value_block(data@),
{
    let mut out = String::new();
    let mut i: usize = 0;
    while i < data.len()
        invariant
            i <= data.len(),
            out@ == value_block(data@.take(i as int)),
        decreases data.len() - i,
    {
        proof {
            let done = notations(data@.take(i + 1));
            assert(done.drop_last() == notations(data@.take(i as int)));
            assert(done.last() == data@[i as int]@);
        }
        out.append(data[i].as_str());
        out.push('\n');
        i += 1;
    }
    assert(data@.take(data.len() as int) == data@);
    out
}

/// Writes the data block of points on parallel axes: the values in order,
/// with a line break after every `width`-th value and a space after each of
/// the others.
pub fn parallel_plot_data(data: &Vec<Number>, width: usize) -> (out: String)
    requires
        width >= 1,
    ensures
        out@ == parallel_block(notations(data@), width as nat),
{
    let mut out = String::new();
    let mut i: usize = 0;
    while i < data.len()
        invariant
            i <= data.len(),
            width >= 1,
            out@ == parallel_block(notations(data@.take(i as int)), width as nat),
        decreases data.len() - i,
    {
        proof {
            let done = notations(data@.take(i + 1));
            assert(done.drop_last() == notations(data@.take(i as int)));
            assert(done.last() == data@[i as int]@);
            assert(done.len() == i + 1);
        }
        out.append(data[i].as_str());
        if (i + 1) % width == 0 {
            out.push('\n');
        } else {
            out.push(' ');
        }
        i += 1;
    }
    assert(data@.take(data.len() as int) == data@);
    out
}

impl GraphStyles {
    /// The renderer's word for the style, or `None` for a style that cannot
    /// be lowered.
    pub open spec fn keyword(&self) -> Option<Seq<char>> {
        match *self {
            GraphStyles::Lines2d(_) | GraphStyles::Lines2dExpr(_) => Some("lines"@),
            GraphStyles::Dots2d(_) | GraphStyles::Dots2dExpr(_) => Some("dots"@),
            GraphStyles::Points2d(_) | GraphStyles::Points2dExpr(_) => Some("points"@),
            GraphStyles::LinesPoints2d(_) | GraphStyles::LinesPoints2dExpr(_) => Some(
                "linespoints"@,
            ),
            GraphStyles::Impulses2d(_) | GraphStyles::Impulses2dExpr(_) => Some("impulses"@),
            GraphStyles::Vectors2d(_) => Some("vectors"@),
            GraphStyles::Labels2d(_) => Some("labels"@),
            GraphStyles::Steps(_) | GraphStyles::StepsExpr(_) => Some("steps"@),
            GraphStyles::FSteps(_) | GraphStyles::FStepsExpr(_) => Some("fsteps"@),
            GraphStyles::YErrorBars(_) => Some("yerrorbars"@),
            GraphStyles::XErrorBars(_) => Some("xerrorbars"@),
            GraphStyles::XYErrorBars(_) => Some("xyerrorbars"@),
            GraphStyles::YErrorLines(_) => Some("yerrorlines"@),
            GraphStyles::XErrorLines(_) => Some("xerrorlines"@),
            GraphStyles::XYErrorLines(_) => Some("xyerrorlines"@),
            GraphStyles::FinanceBars(_) => Some("financebars"@),
            GraphStyles::ParallelAxes(_, _) => Some("parallelaxes"@),
            GraphStyles::Boxes(_) => Some("boxes"@),
            GraphStyles::BoxPlot(_) => Some("boxplot"@),
            GraphStyles::BoxXYError(_) => Some("boxxyerror"@),
            GraphStyles::Candlesticks(_) => Some("candlesticks"@),
            GraphStyles::Circles(_) => Some("circles"@),
            GraphStyles::Ellipses(_) => Some("ellipses"@),
            GraphStyles::HistogramsClustered(_, _)
            | GraphStyles::HistogramsErrorBars(_, _)
            | GraphStyles::HistogramsColumnStacked(_)
            | GraphStyles::HistogramsRowStacked(_) => Some("histograms"@),
            GraphStyles::BoxErrorBars(_) => Some("boxerrorbars"@),
            GraphStyles::Lines3d(_)
            | GraphStyles::Dots3d(_)
            | GraphStyles::Points3d(_)
            | GraphStyles::LinesPoint3d(_)
            | GraphStyles::Impulses3d(_)
            | GraphStyles::Vectors3d(_)
            | GraphStyles::Labels3d(_)
            | GraphStyles::Histeps(_)
            | GraphStyles::HistepsExpr(_)
            | GraphStyles::FillSteps(_)
            | GraphStyles::RGBAlpha
            | GraphStyles::Filledcurves
            | GraphStyles::Image
            | GraphStyles::RGBImage
            | GraphStyles::PM3d
            | GraphStyles::ZErrorFill => None,
        }
    }

    /// Whether the style can be drawn: it can be lowered, and points on
    /// parallel axes have at least one value each.
    pub open spec fn drawable(&self) -> bool {
        &&& self.keyword() is Some
        &&& *self matches GraphStyles::ParallelAxes(_, width) ==> width >= 1
    }

    /// The expression of a style that plots one.
    pub open spec fn expression(&self) -> Option<Seq<char>> {
        match *self {
            GraphStyles::Lines2dExpr(e)
            | GraphStyles::Dots2dExpr(e)
            | GraphStyles::Points2dExpr(e)
            | GraphStyles::LinesPoints2dExpr(e)
            | GraphStyles::Impulses2dExpr(e)
            | GraphStyles::StepsExpr(e)
            | GraphStyles::FStepsExpr(e)
            | GraphStyles::HistepsExpr(e) => Some(e@),
            _ => None,
        }
    }

    /// What the `plot` command is to plot: the expression without its white
    /// space, or `'-'` for data that follow the command.
    pub open spec fn data_token(&self) -> Seq<char> {
        match self.expression() {
            Some(e) => without_whitespace(e),
            None => "'-'"@,
        }
    }

    /// The command that a histogram needs before the plot.
    pub open spec fn pre_plot_command(&self) -> Option<Seq<char>> {
        match *self {
            GraphStyles::HistogramsClustered(_, gap) => Some(
                "set style histogram clustered gap "@ + gap@,
            ),
            GraphStyles::HistogramsErrorBars(_, gap) => Some(
                "set style histogram errorbars gap "@ + gap@,
            ),
            GraphStyles::HistogramsColumnStacked(_) => Some("set style histogram columnstacked"@),
            GraphStyles::HistogramsRowStacked(_) => Some("set style histogram rowstacked"@),
            _ => None,
        }
    }

    /// The data block of a style that can be lowered and has data of its own.
    pub open spec fn data_block(&self) -> Option<Seq<char>> {
        match *self {
            GraphStyles::Lines2d(d)
            | GraphStyles::Dots2d(d)
            | GraphStyles::Points2d(d)
            | GraphStyles::LinesPoints2d(d)
            | GraphStyles::Impulses2d(d)
            | GraphStyles::Steps(d)
            | GraphStyles::FSteps(d) => Some(numeric_block(d@)),
            GraphStyles::Boxes(d) | GraphStyles::HistogramsErrorBars(d, _) => Some(
                numeric_block(d@),
            ),
            GraphStyles::Vectors2d(d)
            | GraphStyles::YErrorBars(d)
            | GraphStyles::XErrorBars(d)
            | GraphStyles::YErrorLines(d)
            | GraphStyles::XErrorLines(d)
            | GraphStyles::BoxPlot(d) => Some(numeric_block(d@)),
            GraphStyles::FinanceBars(d)
            | GraphStyles::Ellipses(d)
            | GraphStyles::BoxErrorBars(d)
            | GraphStyles::Candlesticks(d)
            | GraphStyles::Circles(d) => Some(numeric_block(d@)),
            GraphStyles::XYErrorBars(d)
            | GraphStyles::XYErrorLines(d)
            | GraphStyles::BoxXYError(d) => Some(numeric_block(d@)),
            GraphStyles::Labels2d(d) => Some(label_block(d@)),
            GraphStyles::ParallelAxes(d, width) => Some(
                parallel_block(notations(d@), width as nat),
            ),
            GraphStyles::HistogramsClustered(d, _)
            | GraphStyles::HistogramsColumnStacked(d)
            | GraphStyles::HistogramsRowStacked(d) => Some(value_block(d@)),
            _ => None,
        }
    }

    /// Gives the renderer's word for the style, or `None` for a style that
    /// cannot be lowered.
    pub fn style_keyword(&self) -> (word: Option<&'static str>)
        ensures
            match word {
                Some(w) => self.keyword() == Some(w@),
                None => self.keyword() is None,
            },
    {
        match self {
            GraphStyles::Lines2d(_) | GraphStyles::Lines2dExpr(_) => Some("lines"),
            GraphStyles::Dots2d(_) | GraphStyles::Dots2dExpr(_) => Some("dots"),
            GraphStyles::Points2d(_) | GraphStyles::Points2dExpr(_) => Some("points"),
            GraphStyles::LinesPoints2d(_) | GraphStyles::LinesPoints2dExpr(_) => Some(
                "linespoints",
            ),
            GraphStyles::Impulses2d(_) | GraphStyles::Impulses2dExpr(_) => Some("impulses"),
            GraphStyles::Vectors2d(_) => Some("vectors"),
            GraphStyles::Labels2d(_) => Some("labels"),
            GraphStyles::Steps(_) | GraphStyles::StepsExpr(_) => Some("steps"),
            GraphStyles::FSteps(_) | GraphStyles::FStepsExpr(_) => Some("fsteps"),
            GraphStyles::YErrorBars(_) => Some("yerrorbars"),
            GraphStyles::XErrorBars(_) => Some("xerrorbars"),
            GraphStyles::XYErrorBars(_) => Some("xyerrorbars"),
            GraphStyles::YErrorLines(_) => Some("yerrorlines"),
            GraphStyles::XErrorLines(_) => Some("xerrorlines"),
            GraphStyles::XYErrorLines(_) => Some("xyerrorlines"),
            GraphStyles::FinanceBars(_) => Some("financebars"),
            GraphStyles::ParallelAxes(_, _) => Some("parallelaxes"),
            GraphStyles::Boxes(_) => Some("boxes"),
            GraphStyles::BoxPlot(_) => Some("boxplot"),
            GraphStyles::BoxXYError(_) => Some("boxxyerror"),
            GraphStyles::Candlesticks(_) => Some("candlesticks"),
            GraphStyles::Circles(_) => Some("circles"),
            GraphStyles::Ellipses(_) => Some("ellipses"),
            GraphStyles::HistogramsClustered(_, _)
            | GraphStyles::HistogramsErrorBars(_, _)
            | GraphStyles::HistogramsColumnStacked(_)
            | GraphStyles::HistogramsRowStacked(_) => Some("histograms"),
            GraphStyles::BoxErrorBars(_) => Some("boxerrorbars"),
            GraphStyles::Lines3d(_)
            | GraphStyles::Dots3d(_)
            | GraphStyles::Points3d(_)
            | GraphStyles::LinesPoint3d(_)
            | GraphStyles::Impulses3d(_)
            | GraphStyles::Vectors3d(_)
            | GraphStyles::Labels3d(_)
            | GraphStyles::Histeps(_)
            | GraphStyles::HistepsExpr(_)
            | GraphStyles::FillSteps(_)
            | GraphStyles::RGBAlpha
            | GraphStyles::Filledcurves
            | GraphStyles::Image
            | GraphStyles::RGBImage
            | GraphStyles::PM3d
            | GraphStyles::ZErrorFill => None,
        }
    }

    /// Tells whether the style can be drawn.
    pub fn is_drawable(&self) -> (b: bool)
        ensures
            b == self.drawable(),
    {
        match self {
            GraphStyles::ParallelAxes(_, width) => *width >= 1,
            _ => self.style_keyword().is_some(),
        }
    }

    /// Gives what the `plot` command is to plot.
    pub fn plot_token(&self) -> (token: String)
        ensures
            token@ == self.data_token(),
    {
        match self {
            GraphStyles::Lines2dExpr(e)
            | GraphStyles::Dots2dExpr(e)
            | GraphStyles::Points2dExpr(e)
            | GraphStyles::LinesPoints2dExpr(e)
            | GraphStyles::Impulses2dExpr(e)
            | GraphStyles::StepsExpr(e)
            | GraphStyles::FStepsExpr(e)
            | GraphStyles::HistepsExpr(e) => remove_whitespace(e),
            _ => "'-'".to_owned(),
        }
    }

    /// Gives the command that the style needs before the plot, if any.
    pub fn pre_plot_text(&self) -> (command: Option<String>)
        ensures
            match command {
                Some(c) => self.pre_plot_command() == Some(c@),
                None => self.pre_plot_command() is None,
            },
    {
        match self {
            GraphStyles::HistogramsClustered(_, gap) => {
                let mut c = "set style histogram clustered gap ".to_owned();
                c.append(gap.as_str());
                Some(c)
            },
            GraphStyles::HistogramsErrorBars(_, gap) => {
                let mut c = "set style histogram errorbars gap ".to_owned();
                c.append(gap.as_str());
                Some(c)
            },
            GraphStyles::HistogramsColumnStacked(_) => Some(
                "set style histogram columnstacked".to_owned(),
            ),
            GraphStyles::HistogramsRowStacked(_) => Some(
                "set style histogram rowstacked".to_owned(),
            ),
            _ => None,
        }
    }

    /// Writes the data block of the style, if it has data of its own.
    pub fn data_text(&self) -> (block: Option<String>)
        requires
            self.drawable(),
        ensures
            match block {
                Some(b) => self.data_block() == Some(b@),
                None => self.data_block() is None,
            },
    {
        match self {
            GraphStyles::Lines2d(d)
            | GraphStyles::Dots2d(d)
            | GraphStyles::Points2d(d)
            | GraphStyles::LinesPoints2d(d)
            | GraphStyles::Impulses2d(d)
            | GraphStyles::Steps(d)
            | GraphStyles::FSteps(d) => Some(parse_plot_data(d)),
            GraphStyles::Boxes(d) | GraphStyles::HistogramsErrorBars(d, _) => Some(
                parse_plot_data(d),
            ),
            GraphStyles::Vectors2d(d)
            | GraphStyles::YErrorBars(d)
            | GraphStyles::XErrorBars(d)
            | GraphStyles::YErrorLines(d)
            | GraphStyles::XErrorLines(d)
            | GraphStyles::BoxPlot(d) => Some(parse_plot_data(d)),
            GraphStyles::FinanceBars(d)
            | GraphStyles::Ellipses(d)
            | GraphStyles::BoxErrorBars(d)
            | GraphStyles::Candlesticks(d)
            | GraphStyles::Circles(d) => Some(parse_plot_data(d)),
            GraphStyles::XYErrorBars(d)
            | GraphStyles::XYErrorLines(d)
            | GraphStyles::BoxXYError(d) => Some(parse_plot_data(d)),
            GraphStyles::Labels2d(d) => Some(label_plot_data(d)),
            GraphStyles::ParallelAxes(d, width) => Some(parallel_plot_data(d, *width)),
            GraphStyles::HistogramsClustered(d, _)
            | GraphStyles::HistogramsColumnStacked(d)
            | GraphStyles::HistogramsRowStacked(d) => Some(value_plot_data(d)),
            _ => None,
        }
    }
}

/// One end of the range of a series.
pub enum RangeBound {
    Unbounded,
    Included(Number),
    Excluded(Number),
}

/// What a graph holds.
pub struct GraphView {
    pub data: GraphStyles,
    /// The title, escaped.
    pub title: Seq<char>,
    pub range: (RangeBound, RangeBound),
    pub axes: (XAxes2d, YAxes2d),
}

impl GraphView {
    /// The part of the fragment that names the series: nothing for an empty
    /// title.
    pub open spec fn title_clause(self) -> Seq<char> {
        if self.title.len() == 0 {
            Seq::empty()
        } else {
            " title '"@ + self.title + "'"@
        }
    }

    /// The fragment of the `plot` command that draws the series.
    pub open spec fn plot_arg(self) -> Seq<char> {
        self.data.data_token() + " axes "@ + self.axes.0.name() + self.axes.1.name() + " with "@
            + self.data.keyword().unwrap() + self.title_clause()
    }

    /// The commands before the plot with that of the series, if it has one,
    /// added to `commands`.
    pub open spec fn commands_after(self, commands: Seq<char>) -> Seq<char> {
        match self.data.pre_plot_command() {
            Some(c) => commands + c + seq!['\n'],
            None => commands,
        }
    }

    /// The data blocks with that of the series, if it has one, added to
    /// `blocks`.
    pub open spec fn data_after(self, blocks: Seq<Seq<char>>) -> Seq<Seq<char>> {
        match self.data.data_block() {
            Some(b) => blocks.push(b),
            None => blocks,
        }
    }
}

/// One series: a style with its data, a title, the axes to draw against and
/// a range.
pub struct Graph {
    data: GraphStyles,
    title: String,
    range_start: RangeBound,
    range_end: RangeBound,
    axes: (XAxes2d, YAxes2d),
}

impl View for Graph {
    type V = GraphView;

    closed spec fn view(&self) -> GraphView {
        GraphView {
            data: self.data,
            title: self.title@,
            range: (self.range_start, self.range_end),
            axes: self.axes,
        }
    }
}

impl Graph {
    /// A graph of `data` without a title, against the first axes, with an
    /// unbounded range.
    pub fn new(data: GraphStyles) -> (graph: Self)
        ensures
            graph@ == (GraphView {
                data,
                title: Seq::empty(),
                range: (RangeBound::Unbounded, RangeBound::Unbounded),
                axes: (XAxes2d::X1, YAxes2d::Y1),
            }),
    {
        Graph {
            data,
            title: String::new(),
            range_start: RangeBound::Unbounded,
            range_end: RangeBound::Unbounded,
            axes: (XAxes2d::X1, YAxes2d::Y1),
        }
    }

    /// The graph drawn against the axes `x_axe` and `y_axe`.
    pub fn axes(self, x_axe: XAxes2d, y_axe: YAxes2d) -> (graph: Self)
        ensures
            graph@ == (GraphView { axes: (x_axe, y_axe), ..self@ }),
    {
        let mut graph = self;
        graph.axes = (x_axe, y_axe);
        graph
    }

    /// The graph with the title `title`, escaped.
    pub fn title(self, title: &str) -> (graph: Self)
        ensures
            graph@ == (GraphView { title: escaped_title(title@), ..self@ }),
    {
        let mut graph = self;
        graph.set_title(title);
        graph
    }

    /// The graph with the range from `start` to `end`.
    pub fn range(self, start: RangeBound, end: RangeBound) -> (graph: Self)
        ensures
            graph@ == (GraphView { range: (start, end), ..self@ }),
    {
        let mut graph = self;
        graph.range_start = start;
        graph.range_end = end;
        graph
    }

    /// Takes the graph and sets its axes.  The graph ends with the call: to
    /// go on with it, use [`Graph::axes`].
    pub fn set_axes(self, x_axe: XAxes2d, y_axe: YAxes2d) {
        let mut graph = self;
        graph.axes = (x_axe, y_axe);
    }

    /// Sets the title to `title`, escaped.
    pub fn set_title(&mut self, title: &str)
        ensures
            final(self)@ == (GraphView { title: escaped_title(title@), ..old(self)@ }),
    {
        let double_escaped = escape(title, '"');
        self.title = escape(double_escaped.as_str(), '\'');
    }

    /// Sets the range to that from `start` to `end`.
    pub fn set_range(&mut self, start: RangeBound, end: RangeBound)
        ensures
            final(self)@ == (GraphView { range: (start, end), ..old(self)@ }),
    {
        self.range_start = start;
        self.range_end = end;
    }

    /// The axes that the graph is drawn against.
    pub fn get_axes(&self) -> (axes: &(XAxes2d, YAxes2d))
        ensures
            *axes == self@.axes,
    {
        &self.axes
    }

    /// The title, escaped.
    pub fn get_title(&self) -> (title: &str)
        ensures
            title@ == self@.title,
    {
        self.title.as_str()
    }

    /// The two ends of the range.
    pub fn get_range(&self) -> (range: (&RangeBound, &RangeBound))
        ensures
            *range.0 == self@.range.0,
            *range.1 == self@.range.1,
    {
        (&self.range_start, &self.range_end)
    }

    /// The style of the graph, with its data.
    pub fn get_data(&self) -> (data: &GraphStyles)
        ensures
            *data == self@.data,
    {
        &self.data
    }

    /// Writes the fragment of the `plot` command that draws the series:
    /// what to plot, the axes, the style and, unless the title is empty, the
    /// title.
    pub fn plot_arg(&self) -> (arg: String)
        requires
            self@.data.drawable(),
        ensures
            arg@ == self@.plot_arg(),
    {
        let mut arg = self.data.plot_token();
        arg.append(" axes ");
        arg.append(self.axes.0.to_string().as_str());
        arg.append(self.axes.1.to_string().as_str());
        arg.append(" with ");
        match self.data.style_keyword() {
            Some(word) => arg.append(word),
            None => {},
        }
        if !self.title.as_str().is_empty() {
            arg.append(" title '");
            arg.append(self.title.as_str());
            arg.append("'");
        }
        assert(arg@ == self@.plot_arg());
        arg
    }

    /// Draws the series to `canvas`: announces it, hands over the command
    /// that the style needs before the plot, the data block and the fragment
    /// of the `plot` command, and ends the series.
    pub fn draw_to<T: PlotCanvas>(&self, canvas: &mut T)
        requires
            self@.data.drawable(),
        ensures
            final(canvas).pre_plot_commands() == self@.commands_after(
                old(canvas).pre_plot_commands(),
            ),
            final(canvas).plot_data() == self@.data_after(old(canvas).plot_data()),
            final(canvas).plot_args() == old(canvas).plot_args().push(self@.plot_arg()),
            final(canvas).eager() == old(canvas).eager(),
            final(canvas).issued() == old(canvas).issued() + if old(canvas).eager() {
                script(
                    final(canvas).pre_plot_commands(),
                    final(canvas).plot_args(),
                    final(canvas).plot_data(),
                )
            } else {
                Seq::empty()
            },
            old(canvas).plot_data().len() <= old(canvas).plot_args().len()
                ==> final(canvas).plot_data().len() <= final(canvas).plot_args().len(),
    {
        canvas.on_graph_add();
        match self.data.pre_plot_text() {
            Some(command) => canvas.add_pre_plot_command(command.as_str()),
            None => {},
        }
        match self.data.data_text() {
            Some(block) => canvas.add_plot_data(block.as_str()),
            None => {},
        }
        let arg = self.plot_arg();
        canvas.add_plot_arg(arg.as_str());
        canvas.on_graph_added();
    }
}

/// In the data block of rows of numbers every row has a line of its own,
/// and the line holds the numbers of the row, each followed by a space, and
/// nothing else.
pub proof fn lemma_numeric_block_lines<const N: usize>(rows: Seq<[Number; N]>)
    requires
        forall|i: int, j: int|
            0 <= i < rows.len() && 0 <= j < N ==> is_number(#[trigger] rows[i]@[j]@),
    ensures
        pieces(numeric_block(rows), '\n') == row_lines(rows),
        row_lines(rows).len() == rows.len(),
        forall|i: int|
            0 <= i < rows.len() ==> {
                &&& pieces(#[trigger] row_lines(rows)[i], ' ') == notations(rows[i]@)
                &&& notations(rows[i]@).len() == N
            },
{
    let lines = row_lines(rows);
    assert forall|i: int| 0 <= i < rows.len() implies {
        &&& pieces(#[trigger] lines[i], ' ') == notations(rows[i]@)
        &&& notations(rows[i]@).len() == N
        &&& free_of(lines[i], '\n')
    } by {
        let words = notations(rows[i]@);
        assert forall|j: int| 0 <= j < words.len() implies free_of(#[trigger] words[j], ' ')
            && free_of(words[j], '\n') by {
            assert(is_number(rows[i]@[j]@));
            lemma_number_is_one_word(words[j]);
        }
        lemma_pieces_of_terminated(words, ' ');
        lemma_terminated_free_of(words, seq![' '], '\n');
    }
    lemma_pieces_of_terminated(lines, '\n');
}

/// The values of the `k`-th point on parallel axes: `width` values, from
/// the `k * width`-th on.
pub open spec fn point(values: Seq<Seq<char>>, width: nat, k: int) -> Seq<Seq<char>> {
    values.subrange(k * width, (k + 1) * width)
}

/// The lines of the data block of points on parallel axes, without their
/// line breaks: for each point its values, with a space between each two
/// neighbours.
pub open spec fn parallel_lines(values: Seq<Seq<char>>, width: nat) -> Seq<Seq<char>> {
    Seq::new(values.len() / width, |k: int| separated(point(values, width, k), seq![' ']))
}

/// Fewer values than a point has are each followed by a space.
proof fn lemma_parallel_block_short(values: Seq<Seq<char>>, width: nat)
    requires
        values.len() < width,
    ensures
        parallel_block(values, width) == terminated(values, seq![' ']),
    decreases values.len(),
{
    if values.len() > 0 {
        lemma_parallel_block_short(values.drop_last(), width);
        vstd::arithmetic::div_mod::lemma_small_mod(values.len(), width);
    }
}

/// The values of one point make one line.
proof fn lemma_parallel_block_point(values: Seq<Seq<char>>, width: nat)
    requires
        values.len() == width >= 1,
    ensures
        parallel_block(values, width) == separated(values, seq![' ']) + seq!['\n'],
{
    let front = values.drop_last();
    lemma_parallel_block_short(front, width);
    vstd::arithmetic::div_mod::lemma_mod_self_0(width as int);
    if front.len() > 0 {
        lemma_separated_terminated(front, seq![' ']);
    } else {
        assert(terminated(front, seq![' ']) + values.last() == values[0]);
    }
}

/// After whole points, the block goes on as it began.
proof fn lemma_parallel_block_concat(a: Seq<Seq<char>>, b: Seq<Seq<char>>, width: nat)
    requires
        width >= 1,
        a.len() % width == 0,
    ensures
        parallel_block(a + b, width) == parallel_block(a, width) + parallel_block(b, width),
    decreases b.len(),
{
    if b.len() == 0 {
        assert(a + b == a);
    } else {
        lemma_parallel_block_concat(a, b.drop_last(), width);
        assert((a + b).drop_last() == a + b.drop_last());
        vstd::arithmetic::div_mod::lemma_mod_adds(a.len() as int, b.len() as int, width as int);
    }
}

/// The block of `n` whole points is their `n` lines.
proof fn lemma_parallel_block_points(values: Seq<Seq<char>>, width: nat, n: nat)
    requires
        width >= 1,
        values.len() == n * width,
    ensures
        parallel_lines(values, width).len() == n,
        parallel_block(values, width) == terminated(parallel_lines(values, width), seq!['\n']),
    decreases n,
{
    vstd::arithmetic::div_mod::lemma_div_multiples_vanish(n as int, width as int);
    assert(width * n == n * width) by (nonlinear_arith);
    if n > 0 {
        let m = (n - 1) * width;
        assert(m + width == n * width) by (nonlinear_arith)
            requires
                m == (n - 1) * width,
        ;
        assert(m >= 0) by (nonlinear_arith)
            requires
                m == (n - 1) * width,
                n >= 1,
        ;
        let front = values.take(m);
        let last = values.skip(m);
        assert(values == front + last);
        vstd::arithmetic::div_mod::lemma_mod_multiples_basic(n - 1, width as int);
        lemma_parallel_block_concat(front, last, width);
        lemma_parallel_block_points(front, width, (n - 1) as nat);
        lemma_parallel_block_point(last, width);
        let lines = parallel_lines(values, width);
        let before = parallel_lines(front, width);
        assert(lines == before.push(separated(last, seq![' ']))) by {
            assert forall|k: int| 0 <= k < n - 1 implies point(values, width, k) == point(
                front,
                width,
                k,
            ) by {
                assert((k + 1) * width <= m && 0 <= k * width <= (k + 1) * width)
                    by (nonlinear_arith)
                    requires
                        m == (n - 1) * width,
                        0 <= k < n - 1,
                ;
            }
            assert(point(values, width, n - 1) == last);
        }
        lemma_terminated_push(before, separated(last, seq![' ']), seq!['\n']);
        assert(parallel_block(values, width) == terminated(lines, seq!['\n']));
    } else {
        assert(values.len() == 0) by (nonlinear_arith)
            requires
                values.len() == n * width,
                n == 0,
        ;
    }
}

/// Where the values on parallel axes make whole points, the data block has
/// a line for each point, and the line holds the values of the point, with
/// a space between each two neighbours, and nothing else.
pub proof fn lemma_parallel_block_lines(values: Seq<Seq<char>>, width: nat)
    requires
        width >= 1,
        values.len() % width == 0,
        forall|i: int| 0 <= i < values.len() ==> is_number(#[trigger] values[i]),
    ensures
        pieces(parallel_block(values, width), '\n') == parallel_lines(values, width),
        parallel_lines(values, width).len() == values.len() / width,
        forall|k: int|
            0 <= k < values.len() / width ==> {
                &&& (#[trigger] point(values, width, k)).len() == width
                &&& parallel_lines(values, width)[k] == separated(
                    point(values, width, k),
                    seq![' '],
                )
                &&& pieces(parallel_lines(values, width)[k].push(' '), ' ') == point(
                    values,
                    width,
                    k,
                )
            },
{
    let n = values.len() / width;
    vstd::arithmetic::div_mod::lemma_fundamental_div_mod(values.len() as int, width as int);
    assert(values.len() == n * width) by (nonlinear_arith)
        requires
            values.len() == width * n + 0,
    ;
    lemma_parallel_block_points(values, width, n);
    let lines = parallel_lines(values, width);
    assert forall|k: int| 0 <= k < n implies {
        &&& (#[trigger] point(values, width, k)).len() == width
        &&& lines[k] == separated(point(values, width, k), seq![' '])
        &&& pieces(lines[k].push(' '), ' ') == point(values, width, k)
        &&& free_of(lines[k], '\n')
    } by {
        assert(0 <= k * width && (k + 1) * width <= n * width && (k + 1) * width - k * width
            == width) by (nonlinear_arith)
            requires
                0 <= k < n,
        ;
        let words = point(values, width, k);
        assert forall|j: int| 0 <= j < words.len() implies free_of(#[trigger] words[j], ' ')
            && free_of(words[j], '\n') by {
            assert(words[j] == values[k * width + j]);
            lemma_number_is_one_word(words[j]);
        }
        lemma_separated_terminated(words, seq![' ']);
        assert(lines[k].push(' ') == lines[k] + seq![' ']);
        lemma_pieces_of_terminated(words, ' ');
        lemma_terminated_free_of(words, seq![' '], '\n');
        assert forall|i: int| 0 <= i < lines[k].len() implies lines[k][i] != '\n' by {
            assert(lines[k][i] == terminated(words, seq![' '])[i]);
        }
    }
    lemma_pieces_of_terminated(lines, '\n');
}

/// A style that plots an expression plots the expression without its white
/// space, and has neither a data block nor a command before the plot.
pub proof fn lemma_expression_lowering(style: GraphStyles)
    requires
        style.expression() is Some,
    ensures
        style.data_token() == without_whitespace(style.expression().unwrap()),
        style.data_block() is None,
        style.pre_plot_command() is None,
{
}

/// A new graph is drawn against the first axes and without a title,
/// whatever its style.
pub proof fn lemma_new_graph_fragment(data: GraphStyles)
    requires
        data.drawable(),
    ensures
        ({
            let graph = GraphView {
                data,
                title: Seq::empty(),
                range: (RangeBound::Unbounded, RangeBound::Unbounded),
                axes: (XAxes2d::X1, YAxes2d::Y1),
            };
            &&& graph.title_clause() == Seq::<char>::empty()
            &&& graph.plot_arg() == data.data_token() + " axes x1y1 with "@
                + data.keyword().unwrap()
        }),
{
    reveal_strlit(" axes x1y1 with ");
    reveal_strlit(" axes ");
    reveal_strlit(" with ");
    reveal_strlit("x1");
    reveal_strlit("y1");
    let graph = GraphView {
        data,
        title: Seq::empty(),
        range: (RangeBound::Unbounded, RangeBound::Unbounded),
        axes: (XAxes2d::X1, YAxes2d::Y1),
    };
    assert(" axes "@ + "x1"@ + "y1"@ + " with "@ =~= " axes x1y1 with "@);
    assert(graph.plot_arg() =~= data.data_token() + (" axes "@ + "x1"@ + "y1"@ + " with "@)
        + data.keyword().unwrap());
}

} // verus!
