//! What a series is drawn to.
use vstd::prelude::*;
use crate::text::separated;
use crate::text::terminated;

verus! {

/// The script that plots what a canvas has accumulated: the commands that go
/// before the plot, then one `plot` command with all fragments, separated by
/// commas, then each data block, closed by a line that holds `e`.
pub open spec fn script(commands: Seq<char>, args: Seq<Seq<char>>, data: Seq<Seq<char>>) -> Seq<
    char,
> {
    commands + "plot "@ + separated(args, ", "@) + seq!['\n'] + terminated(data, "e\n"@)
}

/// A canvas accumulates what the series drawn to it are lowered to, and
/// issues the script that plots them.
///
/// A series announces itself with `on_graph_add`, hands over its commands,
/// its data block and its fragment of the `plot` command, and ends with
/// `on_graph_added`.  An eager canvas issues the script at the end of every
/// series; any other leaves that to its owner.
pub trait PlotCanvas {
    /// The commands to run before the plot, each closed by a line break.
    spec fn pre_plot_commands(&self) -> Seq<char>;

    /// The fragments of the `plot` command, one for each series, in the order
    /// in which the series were drawn.
    spec fn plot_args(&self) -> Seq<Seq<char>>;

    /// The data blocks, one for each series with data of its own, in the
    /// order in which the series were drawn.
    spec fn plot_data(&self) -> Seq<Seq<char>>;

    /// The text that the canvas has issued to the renderer.
    spec fn issued(&self) -> Seq<char>;

    /// Whether the canvas issues the script at the end of every series.
    spec fn eager(&self) -> bool;

    /// A series begins.  Nothing changes.
    fn on_graph_add(&mut self)
        ensures
            final(self).pre_plot_commands() == old(self).pre_plot_commands(),
            final(self).plot_args() == old(self).plot_args(),
            final(self).plot_data() == old(self).plot_data(),
            final(self).issued() == old(self).issued(),
            final(self).eager() == old(self).eager(),
    ;

    /// A series is complete.  An eager canvas issues the script of all that
    /// it has accumulated; what is accumulated stays.
    fn on_graph_added(&mut self)
        requires
            old(self).plot_args().len() > 0,
        ensures
            final(self).pre_plot_commands() == old(self).pre_plot_commands(),
            final(self).plot_args() == old(self).plot_args(),
            final(self).plot_data() == old(self).plot_data(),
            final(self).issued() == old(self).issued() + if old(self).eager() {
                script(
                    old(self).pre_plot_commands(),
                    old(self).plot_args(),
                    old(self).plot_data(),
                )
            } else {
                Seq::empty()
            },
            final(self).eager() == old(self).eager(),
    ;

    /// Adds a command to run before the plot, and closes it with a line
    /// break.
    fn add_pre_plot_command(&mut self, command: &str)
        ensures
            final(self).pre_plot_commands() == old(self).pre_plot_commands() + command@ + seq![
                '\n',
            ],
            final(self).plot_args() == old(self).plot_args(),
            final(self).plot_data() == old(self).plot_data(),
            final(self).issued() == old(self).issued(),
            final(self).eager() == old(self).eager(),
    ;

    /// Adds the fragment of one series to the `plot` command.
    fn add_plot_arg(&mut self, arg: &str)
        ensures
            final(self).pre_plot_commands() == old(self).pre_plot_commands(),
            final(self).plot_args() == old(self).plot_args().push(arg@),
            final(self).plot_data() == old(self).plot_data(),
            final(self).issued() == old(self).issued(),
            final(self).eager() == old(self).eager(),
    ;

    /// Adds the data block of one series.
    fn add_plot_data(&mut self, data: &str)
        ensures
            final(self).pre_plot_commands() == old(self).pre_plot_commands(),
            final(self).plot_args() == old(self).plot_args(),
            final(self).plot_data() == old(self).plot_data().push(data@),
            final(self).issued() == old(self).issued(),
            final(self).eager() == old(self).eager(),
    ;
}

} // verus!
