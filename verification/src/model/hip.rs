//! A model with its working memory: construction, configuration, and its state on the device.
use crate::error::{host_error, ErrorSpec, HipErrorKind};
use crate::model::batch::{no_scratch, no_scratch_error};
use crate::model::pending::{PendingState, StatePlaces, StatePlan};
use crate::model::state::{lists, wkv_len, HipState, StateData, StateLayout};
use crate::model::step::{config_of, scratch_view};
use crate::model::{Rwkv7Hip, Rwkv7Model, Rwkv7ModelInfo};
use crate::probe::{HipHook, HipProbeMap};
use crate::scratch::{
    full_shapes, lemma_made_for_states, reset_run, scratch_at, scratch_fits, scratch_run,
    tensor_list, HipRuntimeConfig, HipScratch, LoraDims, ScratchSpec,
};
use crate::stream::{CommandOf, CommandSpec, DataSpec, Elem, HostData, Run, Stream, StreamSpec};
use crate::tensor::{lemma_fits_bounds, DevicePtr, Element, TensorHip, TensorSpec, F16, F32};
use crate::text::{decimal, text};
use std::sync::Arc;
use vstd::prelude::*;
use vstd::slice::slice_to_vec;

verus! {

impl Rwkv7Model {
    /// Ranks of the low-rank factors. Those of the value residual are read from the second
    /// layer, as the first has none.
    pub open spec fn spec_lora_dims(&self) -> LoraDims {
        let att = self.layers@[0].att;
        LoraDims {
            w_dim: att.w1@.shape().d0,
            a_dim: att.a1@.shape().d0,
            g_dim: att.g1@.shape().d0,
            v_dim: if self.layers@.len() > 1 {
                match self.layers@[1].att.v1 {
                    Some(v) => Some(v@.shape().d0),
                    None => None,
                }
            } else {
                None
            },
        }
    }

    /// Ranks of the low-rank factors.
    pub fn lora_dims(&self) -> (d: LoraDims)
        requires
            self.layers@.len() > 0,
        ensures
            d == self.spec_lora_dims(),
    {
        let layer = &self.layers[0];
        LoraDims {
            w_dim: layer.att.w1.shape().dim(0),
            a_dim: layer.att.a1.shape().dim(0),
            g_dim: layer.att.g1.shape().dim(0),
            v_dim: if self.layers.len() > 1 {
                match &self.layers[1].att.v1 {
                    Some(v) => Some(v.shape().dim(0)),
                    None => None,
                }
            } else {
                None
            },
        }
    }

    /// The embedding table: one row of `n_embd` values for each token.
    pub fn get_embedding(&self) -> (w: &[u16])
        ensures
            w@ == self.embed.w@,
    {
        self.embed.w.as_slice()
    }
}

/// The part of a tensor that belongs to one sequence, of which each takes `item` elements.
pub open spec fn item_ptr(tensor: TensorSpec, batch_idx: int, item: int) -> DevicePtr {
    DevicePtr {
        buffer: tensor.buffer,
        offset: (tensor.view.offset + batch_idx * item) as usize,
    }
}

/// The commands that ask for the part of one sequence, of each tensor of a list.
pub open spec fn item_downloads(
    tensors: Seq<TensorSpec>,
    elem: Elem,
    batch_idx: int,
    item: usize,
) -> Seq<CommandSpec> {
    Seq::new(
        tensors.len(),
        |i: int|
            CommandOf::Download {
                src: item_ptr(tensors[i], batch_idx, item as int),
                elem,
                len: item,
            },
    )
}

/// The commands that copy half precision values over the part of one sequence.
pub open spec fn item_uploads_f16(
    tensors: Seq<TensorSpec>,
    batch_idx: int,
    item: usize,
    data: Seq<Seq<u16>>,
) -> Seq<CommandSpec> {
    Seq::new(
        tensors.len(),
        |i: int|
            CommandOf::Upload {
                dst: item_ptr(tensors[i], batch_idx, item as int),
                data: DataSpec::F16(data[i]),
            },
    )
}

/// The commands that copy single precision values over the part of one sequence.
pub open spec fn item_uploads_f32(
    tensors: Seq<TensorSpec>,
    batch_idx: int,
    item: usize,
    data: Seq<Seq<u32>>,
) -> Seq<CommandSpec> {
    Seq::new(
        tensors.len(),
        |i: int|
            CommandOf::Upload {
                dst: item_ptr(tensors[i], batch_idx, item as int),
                data: DataSpec::F32(data[i]),
            },
    )
}

/// Why the state of a sequence cannot be reached, where it cannot.
pub open spec fn item_error(config: Option<HipRuntimeConfig>, batch_idx: usize) -> Option<
    ErrorSpec,
> {
    match config {
        None => Some(no_scratch_error()),
        Some(c) => if batch_idx >= c.batch_size {
            Some(
                host_error(
                    "batch_idx "@ + decimal(batch_idx as nat) + " out of range for batch_size "@
                        + decimal(c.batch_size as nat),
                ),
            )
        } else {
            None
        },
    }
}

/// Checks that the state of a sequence can be reached.
fn check_item(config: &Option<HipRuntimeConfig>, batch_idx: usize) -> (r: Result<(), HipErrorKind>)
    ensures
        match r {
            Ok(_) => item_error(*config, batch_idx) is None,
            Err(e) => item_error(*config, batch_idx) == Some(e@),
        },
{
    match config {
        None => Err(no_scratch()),
        Some(c) => if batch_idx >= c.batch_size {
            Err(
                HipErrorKind::host(
                    text("batch_idx ").num(batch_idx).lit(" out of range for batch_size ").num(
                        c.batch_size,
                    ),
                ),
            )
        } else {
            Ok(())
        },
    }
}

/// Asks for the state of one sequence: all recurrent states, then the token-shift states.
pub open spec fn read_state_run(
    s: Run,
    info: Rwkv7ModelInfo,
    scratch: Option<ScratchSpec>,
    batch_idx: usize,
) -> Run {
    let state = scratch->0.state;
    let b = batch_idx as int;
    let wkv = wkv_len(info, 1) as usize;
    s.check(item_error(config_of(scratch), batch_idx)).emit_all(
        item_downloads(state.wkv, Elem::F32, b, wkv),
    ).emit_all(item_downloads(state.att_shift, Elem::F16, b, info.n_embd)).emit_all(
        item_downloads(state.ffn, Elem::F16, b, info.n_embd),
    ).emit(CommandOf::Synchronize)
}

/// Brings the state of one sequence to the device.
pub open spec fn write_state_run(
    s: Run,
    info: Rwkv7ModelInfo,
    scratch: Option<ScratchSpec>,
    batch_idx: usize,
    data: StateData,
) -> Run {
    let state = scratch->0.state;
    let b = batch_idx as int;
    let wkv = wkv_len(info, 1) as usize;
    s.check(item_error(config_of(scratch), batch_idx)).emit_all(
        item_uploads_f32(state.wkv, b, wkv, data.att_states),
    ).emit_all(item_uploads_f16(state.att_shift, b, info.n_embd, data.att_shift_states)).emit_all(
        item_uploads_f16(state.ffn, b, info.n_embd, data.ffn_states),
    ).emit(CommandOf::Synchronize)
}

/// How the state of one sequence is read: the kinds follow each other, each for all layers.
pub open spec fn item_plan(info: Rwkv7ModelInfo) -> StatePlan {
    StatePlan {
        batch_size: 1,
        n_layer: info.n_layer,
        shift: info.n_embd,
        wkv: wkv_len(info, 1) as usize,
        places: StatePlaces {
            att_shift: info.n_layer,
            ffn: (2 * info.n_layer) as usize,
            wkv: 0,
            step: 1,
        },
        layout: StateLayout::Decode,
    }
}

/// Whether the parts of a sequence in each tensor of a list start at machine integers.
pub open spec fn items_fit(tensors: Seq<TensorSpec>, batch_idx: int, item: int) -> bool {
    forall|i: int|
        0 <= i < tensors.len() ==> (#[trigger] tensors[i]).view.offset + batch_idx * item
            <= usize::MAX
}

/// Asks for the part of one sequence, of each tensor of a list.
fn download_items<T: Element>(
    tensors: &Vec<TensorHip<T>>,
    batch_idx: usize,
    item: usize,
    stream: &mut Stream,
)
    requires
        items_fit(tensor_list(tensors@), batch_idx as int, item as int),
    ensures
        final(stream)@ == Run::start(old(stream)@).emit_all(
            item_downloads(tensor_list(tensors@), T::kind(), batch_idx as int, item),
        ).stream,
{
    let ghost list = tensor_list(tensors@);
    let ghost commands = item_downloads(list, T::kind(), batch_idx as int, item);
    assert(stream@.log =~= old(stream)@.log + commands.take(0));
    let mut i: usize = 0;
    while i < tensors.len()
        invariant
            i <= tensors@.len(),
            list == tensor_list(tensors@),
            commands == item_downloads(list, T::kind(), batch_idx as int, item),
            items_fit(list, batch_idx as int, item as int),
            stream@ == (StreamSpec { log: stream@.log, ..old(stream)@ }),
            stream@.log == old(stream)@.log + commands.take(i as int),
        decreases tensors@.len() - i,
    {
        let p = tensors[i].as_ptr();
        assert(list[i as int] == tensors@[i as int]@);
        proof {
            lemma_item_offset(p.offset as int, batch_idx as int, item as int);
        }
        let src = DevicePtr { buffer: p.buffer, offset: p.offset + batch_idx * item };
        stream.push(CommandOf::Download { src, elem: T::elem(), len: item });
        assert(commands.take(i + 1) =~= commands.take(i as int).push(commands[i as int]));
        assert(stream@.log =~= old(stream)@.log + commands.take(i + 1));
        i += 1;
    }
    assert(commands.take(i as int) =~= commands);
}

/// Offsets of parts are not negative.
proof fn lemma_item_offset(offset: int, batch_idx: int, item: int)
    requires
        0 <= offset,
        0 <= batch_idx,
        0 <= item,
    ensures
        0 <= batch_idx * item <= offset + batch_idx * item,
{
    assert(0 <= batch_idx * item) by (nonlinear_arith)
        requires
            0 <= batch_idx,
            0 <= item,
    ;
}

/// Copies half precision values over the part of one sequence, of each tensor of a list.
fn upload_items_f16(
    tensors: &Vec<TensorHip<F16>>,
    batch_idx: usize,
    item: usize,
    data: &Vec<Vec<u16>>,
    stream: &mut Stream,
)
    requires
        items_fit(tensor_list(tensors@), batch_idx as int, item as int),
        tensors@.len() <= data@.len(),
    ensures
        final(stream)@ == Run::start(old(stream)@).emit_all(
            item_uploads_f16(tensor_list(tensors@), batch_idx as int, item, lists(data@)),
        ).stream,
{
    let ghost list = tensor_list(tensors@);
    let ghost commands = item_uploads_f16(list, batch_idx as int, item, lists(data@));
    assert(stream@.log =~= old(stream)@.log + commands.take(0));
    let mut i: usize = 0;
    while i < tensors.len()
        invariant
            i <= tensors@.len() <= data@.len(),
            list == tensor_list(tensors@),
            commands == item_uploads_f16(list, batch_idx as int, item, lists(data@)),
            items_fit(list, batch_idx as int, item as int),
            stream@ == (StreamSpec { log: stream@.log, ..old(stream)@ }),
            stream@.log == old(stream)@.log + commands.take(i as int),
        decreases tensors@.len() - i,
    {
        let p = tensors[i].as_ptr();
        assert(list[i as int] == tensors@[i as int]@);
        proof {
            lemma_item_offset(p.offset as int, batch_idx as int, item as int);
        }
        let dst = DevicePtr { buffer: p.buffer, offset: p.offset + batch_idx * item };
        let values = slice_to_vec(data[i].as_slice());
        stream.push(CommandOf::Upload { dst, data: HostData::F16(values) });
        assert(commands.take(i + 1) =~= commands.take(i as int).push(commands[i as int]));
        assert(stream@.log =~= old(stream)@.log + commands.take(i + 1));
        i += 1;
    }
    assert(commands.take(i as int) =~= commands);
}

/// Copies single precision values over the part of one sequence, of each tensor of a list.
fn upload_items_f32(
    tensors: &Vec<TensorHip<F32>>,
    batch_idx: usize,
    item: usize,
    data: &Vec<Vec<u32>>,
    stream: &mut Stream,
)
    requires
        items_fit(tensor_list(tensors@), batch_idx as int, item as int),
        tensors@.len() <= data@.len(),
    ensures
        final(stream)@ == Run::start(old(stream)@).emit_all(
            item_uploads_f32(tensor_list(tensors@), batch_idx as int, item, lists(data@)),
        ).stream,
{
    let ghost list = tensor_list(tensors@);
    let ghost commands = item_uploads_f32(list, batch_idx as int, item, lists(data@));
    assert(stream@.log =~= old(stream)@.log + commands.take(0));
    let mut i: usize = 0;
    while i < tensors.len()
        invariant
            i <= tensors@.len() <= data@.len(),
            list == tensor_list(tensors@),
            commands == item_uploads_f32(list, batch_idx as int, item, lists(data@)),
            items_fit(list, batch_idx as int, item as int),
            stream@ == (StreamSpec { log: stream@.log, ..old(stream)@ }),
            stream@.log == old(stream)@.log + commands.take(i as int),
        decreases tensors@.len() - i,
    {
        let p = tensors[i].as_ptr();
        assert(list[i as int] == tensors@[i as int]@);
        proof {
            lemma_item_offset(p.offset as int, batch_idx as int, item as int);
        }
        let dst = DevicePtr { buffer: p.buffer, offset: p.offset + batch_idx * item };
        let values = slice_to_vec(data[i].as_slice());
        stream.push(CommandOf::Upload { dst, data: HostData::F32(values) });
        assert(commands.take(i + 1) =~= commands.take(i as int).push(commands[i as int]));
        assert(stream@.log =~= old(stream)@.log + commands.take(i + 1));
        i += 1;
    }
    assert(commands.take(i as int) =~= commands);
}

/// The parts of a sequence lie within the states of a model's working memory.
proof fn lemma_items_fit(sc: ScratchSpec, info: Rwkv7ModelInfo, batch_idx: int)
    requires
        sc.made_for(info),
        0 <= batch_idx < sc.config.batch_size,
    ensures
        sc.state.covers(info.n_layer as nat),
        0 <= wkv_len(info, 1) <= usize::MAX,
        info.head_size * info.head_size <= usize::MAX,
        info.head_size * info.head_size * info.n_head == wkv_len(info, 1),
        items_fit(sc.state.wkv, batch_idx, wkv_len(info, 1)),
        items_fit(sc.state.att_shift, batch_idx, info.n_embd as int),
        items_fit(sc.state.ffn, batch_idx, info.n_embd as int),
{
    lemma_made_for_states(sc, info);
    let sh = full_shapes(info, sc.lora_dims, sc.config);
    lemma_fits_bounds(sh.wkv_state);
    lemma_fits_bounds(sh.state);
    let b = sc.config.batch_size as int;
    let hs = info.head_size as int;
    let nh = info.n_head as int;
    let wkv = hs * hs * nh;
    assert(wkv * b <= usize::MAX);
    assert(wkv_len(info, 1) == wkv);
    assert(0 <= hs * hs) by (nonlinear_arith);
    assert(0 <= wkv) by (nonlinear_arith)
        requires
            0 <= hs * hs,
            0 <= nh,
            wkv == hs * hs * nh,
    ;
    assert(batch_idx * wkv <= wkv * b) by (nonlinear_arith)
        requires
            0 <= wkv,
            0 <= batch_idx < b,
    ;
    let c = info.n_embd as int;
    assert(c * b * 1 * 1 <= usize::MAX);
    assert(batch_idx * c <= c * b) by (nonlinear_arith)
        requires
            0 <= c,
            0 <= batch_idx < b,
    ;
}

impl Rwkv7Hip {
    /// A model without working memory and without probes.
    pub fn from_model(model: Arc<Rwkv7Model>) -> (h: Rwkv7Hip)
        ensures
            h.model == model,
            h.scratch is None,
            h.probes@ == Map::<HipHook, usize>::empty(),
    {
        Rwkv7Hip { model, scratch: None, probes: HipProbeMap::empty() }
    }

    /// The shared weights.
    pub fn model(&self) -> (m: Arc<Rwkv7Model>)
        ensures
            m == self.model,
    {
        self.model.clone()
    }

    /// Dimensions of the model.
    pub fn info(&self) -> (i: &Rwkv7ModelInfo)
        ensures
            *i == self.model.info,
    {
        &self.model.info
    }

    /// Lets the given callbacks answer hooks.
    pub fn with_probes(self, probes: HipProbeMap) -> (h: Rwkv7Hip)
        ensures
            h.model == self.model,
            h.scratch == self.scratch,
            h.probes == probes,
    {
        Rwkv7Hip { model: self.model, scratch: self.scratch, probes }
    }

    /// Ranks of the low-rank factors.
    pub fn lora_dims(&self) -> (d: LoraDims)
        requires
            self.model.layers@.len() > 0,
        ensures
            d == self.model.spec_lora_dims(),
    {
        self.model.lora_dims()
    }

    /// The embedding table.
    pub fn get_embedding(&self) -> (w: &[u16])
        ensures
            w@ == self.model.embed.w@,
    {
        self.model.get_embedding()
    }

    /// Allocates working memory for a configuration.
    pub fn with_config(self, config: HipRuntimeConfig, stream: &mut Stream) -> (r: Result<
        Rwkv7Hip,
        HipErrorKind,
    >)
        requires
            self.model.layers@.len() > 0,
            scratch_fits(self.model.info, self.model.spec_lora_dims(), config),
        ensures
            scratch_run(
                Run::start(old(stream)@),
                self.model.info,
                self.model.spec_lora_dims(),
                config,
            ).agrees(final(stream)@, r),
            r matches Ok(h) ==> {
                &&& h.model == self.model
                &&& h.probes == self.probes
                &&& scratch_view(h.scratch) == Some(
                    scratch_at(
                        old(stream)@.next,
                        self.model.info,
                        self.model.spec_lora_dims(),
                        config,
                    ),
                )
                &&& scratch_view(h.scratch)->0.made_for(h.model.info)
            },
    {
        let lora_dims = self.model.lora_dims();
        let scratch = HipScratch::new(&self.model.info, lora_dims, config, stream)?;
        Ok(Rwkv7Hip { model: self.model, scratch: Some(scratch), probes: self.probes })
    }

    /// Most tokens of a sequence in one pass, where there is working memory.
    pub fn chunk_size(&self) -> (n: Option<usize>)
        ensures
            n == (match config_of(scratch_view(self.scratch)) {
                Some(c) => Some(c.max_prefill_chunk),
                None => None,
            }),
    {
        match &self.scratch {
            Some(s) => Some(s.config.max_prefill_chunk),
            None => None,
        }
    }

    /// Most sequences in one pass, where there is working memory.
    pub fn max_batch_size(&self) -> (n: Option<usize>)
        ensures
            n == (match config_of(scratch_view(self.scratch)) {
                Some(c) => Some(c.batch_size),
                None => None,
            }),
    {
        match &self.scratch {
            Some(s) => Some(s.config.batch_size),
            None => None,
        }
    }

    /// Sets the state on the device to zero.
    pub fn reset_resident_state(&self, stream: &mut Stream) -> (r: Result<(), HipErrorKind>)
        ensures
            (match scratch_view(self.scratch) {
                Some(s) => reset_run(Run::start(old(stream)@), s.state),
                None => Run::start(old(stream)@).check(Some(no_scratch_error())),
            }).agrees(final(stream)@, r),
    {
        match &self.scratch {
            Some(s) => {
                s.reset_state_gpu(stream);
                Ok(())
            },
            None => Err(no_scratch()),
        }
    }

    /// Asks for the state of one sequence on the device.
    pub fn read_state(&self, batch_idx: usize, stream: &mut Stream) -> (r: Result<
        PendingState,
        HipErrorKind,
    >)
        requires
            scratch_view(self.scratch) matches Some(s) ==> s.made_for(self.model.info),
            3 * self.model.info.n_layer <= usize::MAX,
        ensures
            read_state_run(
                Run::start(old(stream)@),
                self.model.info,
                scratch_view(self.scratch),
                batch_idx,
            ).agrees(final(stream)@, r),
            r matches Ok(p) ==> p@ == item_plan(self.model.info),
    {
        let info = self.model.info;
        let config = self.config();
        check_item(&config, batch_idx)?;
        let scratch = match &self.scratch {
            Some(s) => s,
            None => return Err(no_scratch()),
        };
        proof {
            lemma_items_fit(scratch@, info, batch_idx as int);
        }
        let wkv: usize = info.head_size * info.head_size * info.n_head;
        download_items(&scratch.state.wkv, batch_idx, wkv, stream);
        download_items(&scratch.state.att_shift, batch_idx, info.n_embd, stream);
        download_items(&scratch.state.ffn, batch_idx, info.n_embd, stream);
        stream.synchronize();
        Ok(
            PendingState::new(
                StatePlan {
                    batch_size: 1,
                    n_layer: info.n_layer,
                    shift: info.n_embd,
                    wkv,
                    places: StatePlaces {
                        att_shift: info.n_layer,
                        ffn: 2 * info.n_layer,
                        wkv: 0,
                        step: 1,
                    },
                    layout: StateLayout::Decode,
                },
            ),
        )
    }

    /// Brings the state of one sequence to the device.
    pub fn write_state(&self, batch_idx: usize, state: &HipState, stream: &mut Stream) -> (r: Result<
        (),
        HipErrorKind,
    >)
        requires
            scratch_view(self.scratch) matches Some(s) ==> s.made_for(self.model.info),
            state@.covers(self.model.info.n_layer as nat),
        ensures
            write_state_run(
                Run::start(old(stream)@),
                self.model.info,
                scratch_view(self.scratch),
                batch_idx,
                state@,
            ).agrees(final(stream)@, r),
    {
        let info = self.model.info;
        let config = self.config();
        check_item(&config, batch_idx)?;
        let scratch = match &self.scratch {
            Some(s) => s,
            None => return Err(no_scratch()),
        };
        proof {
            lemma_items_fit(scratch@, info, batch_idx as int);
        }
        let wkv: usize = info.head_size * info.head_size * info.n_head;
        upload_items_f32(&scratch.state.wkv, batch_idx, wkv, &state.att_states, stream);
        upload_items_f16(
            &scratch.state.att_shift,
            batch_idx,
            info.n_embd,
            &state.att_shift_states,
            stream,
        );
        upload_items_f16(&scratch.state.ffn, batch_idx, info.n_embd, &state.ffn_states, stream);
        stream.synchronize();
        Ok(())
    }
}

} // verus!
