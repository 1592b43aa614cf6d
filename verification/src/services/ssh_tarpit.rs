//! The service that keeps clients busy with an endless banner.

use vstd::prelude::*;
use crate::config::settings::Seconds;
use crate::connection::{ConnectionInner, ForwardedConnection};
use crate::utils::lemma_next_mod;

verus! {

/// What the tarpit is made from.
#[derive(Clone, Copy, Debug, PartialEq, Eq, Structural)]
pub struct SshTarpitConfig {
    pub max_connections: usize,
    pub banner_repeat_time: Seconds,
}

/// What holds of every client in the tarpit.
#[derive(Clone, Copy, Debug, PartialEq, Eq, Structural)]
pub struct Settings {
    pub max_connections: usize,
    pub banner_repeat_time: Seconds,
}

/// The tarpit and where its clients come from.
pub struct SshTarpit<R, T> {
    pub settings: Settings,
    pub forward_receiver: R,
    pub conn_tracker: T,
}

impl<R, T> SshTarpit<R, T> {
    pub fn new(config: SshTarpitConfig, forward_receiver: R, conn_tracker: T) -> (r: Self)
        ensures
            r.settings.max_connections == config.max_connections,
            r.settings.banner_repeat_time == config.banner_repeat_time,
            r.forward_receiver == forward_receiver,
            r.conn_tracker == conn_tracker,
    {
        SshTarpit {
            settings: Settings {
                max_connections: config.max_connections,
                banner_repeat_time: config.banner_repeat_time,
            },
            forward_receiver,
            conn_tracker,
        }
    }
}

/// The stream of a client. A connection that does not run over TCP is passed over.
pub fn trapped_stream<C>(conn: ForwardedConnection<C>) -> (r: Option<C>)
    ensures
        r == match conn.inner {
            ConnectionInner::Tcp(stream) => Some(stream),
            ConnectionInner::Quic => None,
        },
{
    let (inner, _, _) = conn.into_inner();
    inner.tcp()
}

/// What is done for a client.
#[derive(Clone, Copy, Debug, PartialEq, Eq, Structural)]
pub enum TarpitStage {
    /// Wait until the stream can be written to.
    AwaitWritable,
    /// Write the line at the given place.
    Write(usize),
    /// Wait before the next line.
    Rest(Seconds),
    /// Let the client go.
    End,
}

/// A client in the tarpit.
pub struct Tarpit {
    repeat_time: Seconds,
    lines: usize,
    line: usize,
    stage: TarpitStage,
}

/// A client in the tarpit, as a value.
pub struct TarpitView {
    pub repeat_time: Seconds,
    /// How many lines there are.
    pub lines: nat,
    /// The line that comes next, or that is being written.
    pub line: nat,
    pub stage: TarpitStage,
}

impl View for Tarpit {
    type V = TarpitView;

    closed spec fn view(&self) -> TarpitView {
        TarpitView {
            repeat_time: self.repeat_time,
            lines: self.lines as nat,
            line: self.line as nat,
            stage: self.stage,
        }
    }
}

impl TarpitView {
    /// A client that comes while so many others are there. It is let go at once where that is too
    /// many, or where there is nothing to write.
    pub open spec fn entered(task_count: usize, settings: Settings, lines: usize) -> TarpitView {
        TarpitView {
            repeat_time: settings.banner_repeat_time,
            lines: lines as nat,
            line: 0,
            stage: if task_count >= settings.max_connections || lines == 0 {
                TarpitStage::End
            } else {
                TarpitStage::AwaitWritable
            },
        }
    }

    /// What follows when a stage is over, which went well or not. Only a stream that cannot be
    /// waited for ends it. After the last line the first one comes again.
    pub open spec fn after(self, ok: bool) -> TarpitView {
        match self.stage {
            TarpitStage::AwaitWritable => TarpitView {
                stage: if ok {
                    TarpitStage::Write(self.line as usize)
                } else {
                    TarpitStage::End
                },
                ..self
            },
            TarpitStage::Write(_) => TarpitView {
                stage: TarpitStage::Rest(self.repeat_time),
                ..self
            },
            TarpitStage::Rest(_) => TarpitView {
                line: if self.line + 1 == self.lines {
                    0
                } else {
                    self.line + 1
                },
                stage: TarpitStage::AwaitWritable,
                ..self
            },
            TarpitStage::End => self,
        }
    }

    /// A round: the stream can be written to, a line is written, well or not, and there is a rest.
    pub open spec fn round(self, written: bool) -> TarpitView {
        self.after(true).after(written).after(true)
    }

    /// Some rounds, whose lines were all written or were not.
    pub open spec fn rounds(self, written: Seq<bool>) -> TarpitView
        decreases written.len(),
    {
        if written.len() == 0 {
            self
        } else {
            self.rounds(written.drop_last()).round(written.last())
        }
    }
}

impl Tarpit {
    #[verifier::type_invariant]
    spec fn on_a_line(self) -> bool {
        self.stage is End || self.line < self.lines
    }

    /// Takes a client in.
    pub fn enter(task_count: usize, settings: Settings, lines: usize) -> (r: Tarpit)
        ensures
            r@ == TarpitView::entered(task_count, settings, lines),
    {
        let stage = if task_count >= settings.max_connections || lines == 0 {
            TarpitStage::End
        } else {
            TarpitStage::AwaitWritable
        };
        Tarpit { repeat_time: settings.banner_repeat_time, lines, line: 0, stage }
    }

    /// What is done for the client now.
    pub fn stage(&self) -> (r: TarpitStage)
        ensures
            r == self@.stage,
    {
        self.stage
    }

    /// Goes on after a stage.
    pub fn advance(self, ok: bool) -> (r: Tarpit)
        ensures
            r@ == self@.after(ok),
    {
        proof {
            use_type_invariant(&self);
        }
        let Tarpit { repeat_time, lines, line, stage } = self;
        match stage {
            TarpitStage::AwaitWritable => {
                let stage = if ok {
                    TarpitStage::Write(line)
                } else {
                    TarpitStage::End
                };
                Tarpit { repeat_time, lines, line, stage }
            },
            TarpitStage::Write(_) => {
                Tarpit { repeat_time, lines, line, stage: TarpitStage::Rest(repeat_time) }
            },
            TarpitStage::Rest(_) => {
                let line: usize = if line + 1 == lines {
                    0
                } else {
                    line + 1
                };
                Tarpit { repeat_time, lines, line, stage: TarpitStage::AwaitWritable }
            },
            TarpitStage::End => { Tarpit { repeat_time, lines, line, stage } },
        }
    }
}

/// A client that is taken in gets the lines in turn for as long as its stream can be written to:
/// after any number of rounds the next line is the one at that number, counted round and round.
pub proof fn lines_come_in_turn(
    task_count: usize,
    settings: Settings,
    lines: usize,
    written: Seq<bool>,
)
    requires
        task_count < settings.max_connections,
        lines > 0,
    ensures
        TarpitView::entered(task_count, settings, lines).rounds(written) == (TarpitView {
            repeat_time: settings.banner_repeat_time,
            lines: lines as nat,
            line: written.len() % (lines as nat),
            stage: TarpitStage::AwaitWritable,
        }),
    decreases written.len(),
{
    if written.len() == 0 {
        vstd::arithmetic::div_mod::lemma_small_mod(0, lines as nat);
    } else {
        lines_come_in_turn(task_count, settings, lines, written.drop_last());
        lemma_next_mod(written.len() - 1, lines as int);
    }
}

} // verus!
