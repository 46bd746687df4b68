//! A canvas that keeps the script in memory.
use vstd::prelude::*;
use crate::enums::CoordinateSystem;
use crate::plot_canvas::script;
use crate::plot_canvas::PlotCanvas;
use crate::text::concat_terminated;
use crate::text::join;
use crate::text::texts;

verus! {

/// Why a canvas could not issue its script.
#[derive(Clone, Copy, Debug, PartialEq, Eq, Structural)]
pub enum PlotError {
    /// No series has been drawn to the canvas.
    NothingToPlot,
}

/// A canvas that accumulates the series drawn to it and writes the script
/// that plots them into a buffer, from which its owner takes the text to
/// hand it to the renderer.
pub struct SimplePlotCanvas {
    persistent: bool,
    eager: bool,
    pre_plot_commands: String,
    plot_args: Vec<String>,
    plot_data: Vec<String>,
    issued: String,
}

impl SimplePlotCanvas {
    /// Whether the renderer is to keep its window when the script ends.
    pub closed spec fn persistent(&self) -> bool {
        self.persistent
    }

    /// An empty canvas, which issues the script at the end of every series.
    pub fn new(persistent: bool) -> (canvas: SimplePlotCanvas)
        ensures
            canvas.persistent() == persistent,
            canvas.eager(),
            canvas.pre_plot_commands() == Seq::<char>::empty(),
            canvas.plot_args() == Seq::<Seq<char>>::empty(),
            canvas.plot_data() == Seq::<Seq<char>>::empty(),
            canvas.issued() == Seq::<char>::empty(),
    {
        let canvas = SimplePlotCanvas {
            persistent,
            eager: true,
            pre_plot_commands: String::new(),
            plot_args: Vec::new(),
            plot_data: Vec::new(),
            issued: String::new(),
        };
        assert(texts(canvas.plot_args@) =~= Seq::<Seq<char>>::empty());
        assert(texts(canvas.plot_data@) =~= Seq::<Seq<char>>::empty());
        canvas
    }

    /// Chooses whether the canvas issues the script at the end of every
    /// series, or only when `plot` is called.
    pub fn flush_each_series(self, eager: bool) -> (canvas: SimplePlotCanvas)
        ensures
            canvas.eager() == eager,
            canvas.persistent() == self.persistent(),
            canvas.pre_plot_commands() == self.pre_plot_commands(),
            canvas.plot_args() == self.plot_args(),
            canvas.plot_data() == self.plot_data(),
            canvas.issued() == self.issued(),
    {
        let mut canvas = self;
        canvas.eager = eager;
        canvas
    }

    /// Tells whether the renderer is to keep its window when the script ends.
    pub fn is_persistent(&self) -> (b: bool)
        ensures
            b == self.persistent(),
    {
        self.persistent
    }

    /// Adds the command that switches the renderer to `sys`: `set polar` or
    /// `unset polar`.
    pub fn set_coordinate_system(&mut self, sys: CoordinateSystem)
        ensures
            final(self).pre_plot_commands() == old(self).pre_plot_commands() + (match sys {
                CoordinateSystem::Polar => "set polar"@,
                CoordinateSystem::Cartesian => "unset polar"@,
            }) + seq!['\n'],
            final(self).plot_args() == old(self).plot_args(),
            final(self).plot_data() == old(self).plot_data(),
            final(self).issued() == old(self).issued(),
            final(self).eager() == old(self).eager(),
            final(self).persistent() == old(self).persistent(),
    {
        match sys {
            CoordinateSystem::Polar => self.add_pre_plot_command("set polar"),
            CoordinateSystem::Cartesian => self.add_pre_plot_command("unset polar"),
        }
    }

    /// Issues the script that plots all that the canvas has accumulated.
    /// What is accumulated stays.  Without a series there is nothing to plot:
    /// the call fails and changes nothing.
    pub fn plot(&mut self) -> (done: Result<(), PlotError>)
        ensures
            match done {
                Ok(_) => old(self).plot_args().len() > 0
                    && final(self).issued() == old(self).issued() + script(
                    old(self).pre_plot_commands(),
                    old(self).plot_args(),
                    old(self).plot_data(),
                ),
                Err(e) => e == PlotError::NothingToPlot && old(self).plot_args().len() == 0
                    && final(self).issued() == old(self).issued(),
            },
            final(self).pre_plot_commands() == old(self).pre_plot_commands(),
            final(self).plot_args() == old(self).plot_args(),
            final(self).plot_data() == old(self).plot_data(),
            final(self).eager() == old(self).eager(),
            final(self).persistent() == old(self).persistent(),
    {
        if self.plot_args.len() == 0 {
            return Err(PlotError::NothingToPlot);
        }
        let fragments = join(&self.plot_args, ", ");
        let blocks = concat_terminated(&self.plot_data, "e\n");
        let ghost before = self.issued@;
        self.issued.append(self.pre_plot_commands.as_str());
        self.issued.append("plot ");
        self.issued.append(fragments.as_str());
        self.issued.push('\n');
        self.issued.append(blocks.as_str());
        assert(self.issued@ == before + script(
            self.pre_plot_commands@,
            texts(self.plot_args@),
            texts(self.plot_data@),
        ));
        Ok(())
    }

    /// Hands out the text issued since the last call, for the renderer to
    /// read, and forgets it.
    pub fn take_output(&mut self) -> (text: String)
        ensures
            text@ == old(self).issued(),
            final(self).issued() == Seq::<char>::empty(),
            final(self).pre_plot_commands() == old(self).pre_plot_commands(),
            final(self).plot_args() == old(self).plot_args(),
            final(self).plot_data() == old(self).plot_data(),
            final(self).eager() == old(self).eager(),
            final(self).persistent() == old(self).persistent(),
    {
        let mut text = String::new();
        std::mem::swap(&mut self.issued, &mut text);
        text
    }
}

impl PlotCanvas for SimplePlotCanvas {
    closed spec fn pre_plot_commands(&self) -> Seq<char> {
        self.pre_plot_commands@
    }

    closed spec fn plot_args(&self) -> Seq<Seq<char>> {
        texts(self.plot_args@)
    }

    closed spec fn plot_data(&self) -> Seq<Seq<char>> {
        texts(self.plot_data@)
    }

    closed spec fn issued(&self) -> Seq<char> {
        self.issued@
    }

    closed spec fn eager(&self) -> bool {
        self.eager
    }

    fn on_graph_add(&mut self)
        ensures
            final(self).persistent() == old(self).persistent(),
    {
    }

    fn on_graph_added(&mut self)
        ensures
            final(self).persistent() == old(self).persistent(),
    {
        if self.eager {
            let _ = self.plot();
        }
    }

    fn add_pre_plot_command(&mut self, command: &str)
        ensures
            final(self).persistent() == old(self).persistent(),
    {
        self.pre_plot_commands.append(command);
        self.pre_plot_commands.push('\n');
    }

    fn add_plot_arg(&mut self, arg: &str)
        ensures
            final(self).persistent() == old(self).persistent(),
    {
        self.plot_args.push(arg.to_owned());
        assert(texts(self.plot_args@) =~= texts(old(self).plot_args@).push(arg@));
    }

    fn add_plot_data(&mut self, data: &str)
        ensures
            final(self).persistent() == old(self).persistent(),
    {
        self.plot_data.push(data.to_owned());
        assert(texts(self.plot_data@) =~= texts(old(self).plot_data@).push(data@));
    }
}

} // verus!
