//! The predefined layouts, selected with the keys 0 to 9.

use crate::monitor::layout::{default_shape, layout_row, preset_shape, row_names, Constraint, Preset};
use vstd::prelude::*;

verus! {

/// The share of the height that a layout's rows take, in percent: the sum of the rows'
/// percentage heights (rows with another kind of height count nothing).
pub open spec fn percentage_total(shape: Seq<(Seq<Seq<char>>, Constraint)>) -> int
    decreases shape.len(),
{
    if shape.len() == 0 {
        0
    } else {
        percentage_total(shape.drop_last()) + match shape.last().1 {
            Constraint::Percentage(p) => p as int,
            _ => 0,
        }
    }
}

/// The shape of the full system layout.
pub open spec fn full_system_shape() -> Seq<(Seq<Seq<char>>, Constraint)> {
    seq![
        (seq!["cpu"@, "gpu"@], Constraint::Percentage(25)),
        (seq!["memory"@, "network"@], Constraint::Percentage(20)),
        (seq!["process"@], Constraint::Percentage(55)),
    ]
}

/// The shape of the machine-learning layout.
pub open spec fn ml_shape() -> Seq<(Seq<Seq<char>>, Constraint)> {
    seq![
        (seq!["llm"@, "training"@], Constraint::Percentage(40)),
        (seq!["gpu"@, "zram"@], Constraint::Percentage(30)),
        (seq!["repartir"@], Constraint::Percentage(30)),
    ]
}

/// The shape of the network layout.
pub open spec fn network_shape() -> Seq<(Seq<Seq<char>>, Constraint)> {
    seq![
        (seq!["network"@], Constraint::Percentage(40)),
        (seq!["disk"@], Constraint::Percentage(30)),
        (seq!["process"@], Constraint::Percentage(30)),
    ]
}

/// The shape of the process layout.
pub open spec fn process_shape() -> Seq<(Seq<Seq<char>>, Constraint)> {
    seq![
        (seq!["cpu"@, "memory"@], Constraint::Percentage(20)),
        (seq!["process"@], Constraint::Percentage(80)),
    ]
}

/// The shape of the GPU layout.
pub open spec fn gpu_shape() -> Seq<(Seq<Seq<char>>, Constraint)> {
    seq![
        (seq!["gpu"@], Constraint::Percentage(50)),
        (seq!["cpu"@, "memory"@], Constraint::Percentage(25)),
        (seq!["process"@], Constraint::Percentage(25)),
    ]
}

/// The shape of the sensors layout.
pub open spec fn sensors_shape() -> Seq<(Seq<Seq<char>>, Constraint)> {
    seq![
        (seq!["cpu"@, "sensors"@], Constraint::Percentage(30)),
        (seq!["memory"@, "battery"@], Constraint::Percentage(20)),
        (seq!["process"@], Constraint::Percentage(50)),
    ]
}

/// The shape of the compact layout.
pub open spec fn compact_shape() -> Seq<(Seq<Seq<char>>, Constraint)> {
    seq![
        (seq!["cpu"@, "memory"@], Constraint::Percentage(40)),
        (seq!["network"@, "disk"@], Constraint::Percentage(40)),
        (seq!["process"@], Constraint::Percentage(20)),
    ]
}

/// The default layout: CPU over memory over processes.
pub fn preset_default() -> (p: Preset)
    ensures
        preset_shape(p) == default_shape(),
{
    let r0 = layout_row(&["cpu"], Constraint::Percentage(30));
    let r1 = layout_row(&["memory"], Constraint::Percentage(25));
    let r2 = layout_row(&["process"], Constraint::Percentage(45));
    proof {
        assert(row_names(r0) =~= seq!["cpu"@]);
        assert(row_names(r1) =~= seq!["memory"@]);
        assert(row_names(r2) =~= seq!["process"@]);
    }
    let p = Preset { rows: vec![r0, r1, r2] };
    proof {
        assert(preset_shape(p) =~= default_shape());
    }
    p
}

/// The full system layout: CPU and GPU, memory and network, then processes.
pub fn preset_full_system() -> (p: Preset)
    ensures
        preset_shape(p) == full_system_shape(),
{
    let r0 = layout_row(&["cpu", "gpu"], Constraint::Percentage(25));
    let r1 = layout_row(&["memory", "network"], Constraint::Percentage(20));
    let r2 = layout_row(&["process"], Constraint::Percentage(55));
    proof {
        assert(row_names(r0) =~= seq!["cpu"@, "gpu"@]);
        assert(row_names(r1) =~= seq!["memory"@, "network"@]);
        assert(row_names(r2) =~= seq!["process"@]);
    }
    let p = Preset { rows: vec![r0, r1, r2] };
    proof {
        assert(preset_shape(p) =~= full_system_shape());
    }
    p
}

/// The machine-learning layout: LLM and training, GPU and ZRAM, then work distribution.
pub fn preset_ml() -> (p: Preset)
    ensures
        preset_shape(p) == ml_shape(),
{
    let r0 = layout_row(&["llm", "training"], Constraint::Percentage(40));
    let r1 = layout_row(&["gpu", "zram"], Constraint::Percentage(30));
    let r2 = layout_row(&["repartir"], Constraint::Percentage(30));
    proof {
        assert(row_names(r0) =~= seq!["llm"@, "training"@]);
        assert(row_names(r1) =~= seq!["gpu"@, "zram"@]);
        assert(row_names(r2) =~= seq!["repartir"@]);
    }
    let p = Preset { rows: vec![r0, r1, r2] };
    proof {
        assert(preset_shape(p) =~= ml_shape());
    }
    p
}

/// The network layout: network over disk over processes.
pub fn preset_network() -> (p: Preset)
    ensures
        preset_shape(p) == network_shape(),
{
    let r0 = layout_row(&["network"], Constraint::Percentage(40));
    let r1 = layout_row(&["disk"], Constraint::Percentage(30));
    let r2 = layout_row(&["process"], Constraint::Percentage(30));
    proof {
        assert(row_names(r0) =~= seq!["network"@]);
        assert(row_names(r1) =~= seq!["disk"@]);
        assert(row_names(r2) =~= seq!["process"@]);
    }
    let p = Preset { rows: vec![r0, r1, r2] };
    proof {
        assert(preset_shape(p) =~= network_shape());
    }
    p
}

/// The process layout: CPU and memory over a large process table.
pub fn preset_process() -> (p: Preset)
    ensures
        preset_shape(p) == process_shape(),
{
    let r0 = layout_row(&["cpu", "memory"], Constraint::Percentage(20));
    let r1 = layout_row(&["process"], Constraint::Percentage(80));
    proof {
        assert(row_names(r0) =~= seq!["cpu"@, "memory"@]);
        assert(row_names(r1) =~= seq!["process"@]);
    }
    let p = Preset { rows: vec![r0, r1] };
    proof {
        assert(preset_shape(p) =~= process_shape());
    }
    p
}

/// The GPU layout: GPU, then CPU and memory, then processes.
pub fn preset_gpu() -> (p: Preset)
    ensures
        preset_shape(p) == gpu_shape(),
{
    let r0 = layout_row(&["gpu"], Constraint::Percentage(50));
    let r1 = layout_row(&["cpu", "memory"], Constraint::Percentage(25));
    let r2 = layout_row(&["process"], Constraint::Percentage(25));
    proof {
        assert(row_names(r0) =~= seq!["gpu"@]);
        assert(row_names(r1) =~= seq!["cpu"@, "memory"@]);
        assert(row_names(r2) =~= seq!["process"@]);
    }
    let p = Preset { rows: vec![r0, r1, r2] };
    proof {
        assert(preset_shape(p) =~= gpu_shape());
    }
    p
}

/// The sensors layout: CPU and sensors, memory and battery, then processes.
pub fn preset_sensors() -> (p: Preset)
    ensures
        preset_shape(p) == sensors_shape(),
{
    let r0 = layout_row(&["cpu", "sensors"], Constraint::Percentage(30));
    let r1 = layout_row(&["memory", "battery"], Constraint::Percentage(20));
    let r2 = layout_row(&["process"], Constraint::Percentage(50));
    proof {
        assert(row_names(r0) =~= seq!["cpu"@, "sensors"@]);
        assert(row_names(r1) =~= seq!["memory"@, "battery"@]);
        assert(row_names(r2) =~= seq!["process"@]);
    }
    let p = Preset { rows: vec![r0, r1, r2] };
    proof {
        assert(preset_shape(p) =~= sensors_shape());
    }
    p
}

/// The compact layout: CPU and memory, network and disk, then processes.
pub fn preset_compact() -> (p: Preset)
    ensures
        preset_shape(p) == compact_shape(),
{
    let r0 = layout_row(&["cpu", "memory"], Constraint::Percentage(40));
    let r1 = layout_row(&["network", "disk"], Constraint::Percentage(40));
    let r2 = layout_row(&["process"], Constraint::Percentage(20));
    proof {
        assert(row_names(r0) =~= seq!["cpu"@, "memory"@]);
        assert(row_names(r1) =~= seq!["network"@, "disk"@]);
        assert(row_names(r2) =~= seq!["process"@]);
    }
    let p = Preset { rows: vec![r0, r1, r2] };
    proof {
        assert(preset_shape(p) =~= compact_shape());
    }
    p
}

/// The shapes of the layouts of keys 0 to 9 (8 and 9 are the default layout).
pub open spec fn preset_shapes() -> Seq<Seq<(Seq<Seq<char>>, Constraint)>> {
    seq![
        default_shape(),
        full_system_shape(),
        ml_shape(),
        network_shape(),
        process_shape(),
        gpu_shape(),
        sensors_shape(),
        compact_shape(),
        default_shape(),
        default_shape(),
    ]
}

/// The layouts of keys 0 to 9.
pub fn all_presets() -> (v: Vec<Preset>)
    ensures
        v@.len() == preset_shapes().len(),
        forall|i: int| 0 <= i < v@.len() ==> preset_shape(#[trigger] v@[i]) == preset_shapes()[i],
{
    let v = vec![
        preset_default(),
        preset_full_system(),
        preset_ml(),
        preset_network(),
        preset_process(),
        preset_gpu(),
        preset_sensors(),
        preset_compact(),
        preset_default(),
        preset_default(),
    ];
    v
}

/// In every predefined layout the row height percentages add up to 100.
pub proof fn lemma_preset_percentages_total_100()
    ensures
        forall|i: int| 0 <= i < preset_shapes().len() ==> percentage_total(#[trigger] preset_shapes()[i]) == 100,
{
    reveal_with_fuel(percentage_total, 4);
    assert(percentage_total(default_shape()) == 100);
    assert(percentage_total(full_system_shape()) == 100);
    assert(percentage_total(ml_shape()) == 100);
    assert(percentage_total(network_shape()) == 100);
    assert(percentage_total(process_shape()) == 100);
    assert(percentage_total(gpu_shape()) == 100);
    assert(percentage_total(sensors_shape()) == 100);
    assert(percentage_total(compact_shape()) == 100);
}

} // verus!
