//! The 3D reflectivity volume: how its texture is packed, and what is kept of it per pane.

use vstd::prelude::*;

verus! {

/// The byte pair that stands for the volume index `v`: the index, and 255 where a real value
/// exists (index 2 and up), else 0.
pub open spec fn rg8(v: u8) -> (u8, u8) {
    (v, if v >= 2 { 255u8 } else { 0u8 })
}

/// Expand a plain index grid (`0` empty, `2..=255` value) into the two-channel layout the raymarch
/// samples: the first channel keeps the index, the second is 255 where a real value exists.
/// Filtering both together is what lets the shader interpolate only across real voxels.
pub fn pack_rg8(data: &[u8]) -> (out: Vec<u8>)
    ensures
        out@.len() == 2 * data@.len(),
        forall|i: int|
            0 <= i < data@.len() ==> out@[2 * i] == rg8(#[trigger] data@[i]).0 && out@[2 * i + 1]
                == rg8(data@[i]).1,
{
    let mut out: Vec<u8> = Vec::new();
    let mut i: usize = 0;
    while i < data.len()
        invariant
            i <= data.len(),
            out@.len() == 2 * i,
            forall|j: int|
                0 <= j < i ==> out@[2 * j] == rg8(#[trigger] data@[j]).0 && out@[2 * j + 1] == rg8(
                    data@[j],
                ).1,
        decreases data.len() - i,
    {
        let v = data[i];
        out.push(v);
        out.push(if v >= 2 { 255 } else { 0 });
        i = i + 1;
    }
    out
}

/// What a frame of a volume has to do on the GPU, in this order.
#[derive(Clone, Copy, Debug, PartialEq, Eq, Structural)]
pub struct VolumeSteps {
    /// Compile the raymarch pipeline.
    pub build_pipeline: bool,
    /// Make the pane's uniform buffer.
    pub build_uniform: bool,
    /// Upload the volume's texture, color table and bind group, in place of what was there.
    pub upload: bool,
    /// Write the frame's camera uniforms.
    pub write_uniform: bool,
}

/// The one volume of the 3D window.
///
/// The pipeline is built the first time a volume is uploaded, not at startup: compiling the
/// raymarch shader costs real time, and most sessions never open the window.
#[derive(Clone, Copy, Debug, PartialEq, Eq, Structural)]
pub struct Volume3dResources {
    pub pipeline: bool,
    /// There is a volume.
    pub gpu: bool,
}

impl Volume3dResources {
    /// A volume is never there without the pipeline that draws it.
    pub open spec fn well_formed(self) -> bool {
        self.gpu ==> self.pipeline
    }

    /// No volume yet; the uniform buffer is there from the start.
    pub fn new() -> (r: Volume3dResources)
        ensures
            r.well_formed(),
            r == (Volume3dResources { pipeline: false, gpu: false }),
    {
        Volume3dResources { pipeline: false, gpu: false }
    }

    /// What one frame does: the first upload builds the pipeline; the uniforms are always written.
    pub fn prepare(&mut self, upload: bool) -> (steps: VolumeSteps)
        requires
            old(self).well_formed(),
        ensures
            final(self).well_formed(),
            *final(self) == (Volume3dResources {
                pipeline: old(self).pipeline || upload,
                gpu: old(self).gpu || upload,
            }),
            steps == (VolumeSteps {
                build_pipeline: upload && !old(self).pipeline,
                build_uniform: false,
                upload,
                write_uniform: true,
            }),
    {
        let build_pipeline = upload && !self.pipeline;
        if upload {
            self.pipeline = true;
            self.gpu = true;
        }
        VolumeSteps { build_pipeline, build_uniform: false, upload, write_uniform: true }
    }

    /// Whether anything is drawn: it is once a volume was uploaded.
    pub fn record(&self) -> (draws: bool)
        requires
            self.well_formed(),
        ensures
            draws == self.gpu,
    {
        self.gpu && self.pipeline
    }

    /// Upload a volume and draw it once: always drawn, on a pipeline built when it was missing.
    pub fn render_once(&mut self) -> (r: (VolumeSteps, bool))
        requires
            old(self).well_formed(),
        ensures
            *final(self) == (Volume3dResources { pipeline: true, gpu: true }),
            r.0 == (VolumeSteps {
                build_pipeline: !old(self).pipeline,
                build_uniform: false,
                upload: true,
                write_uniform: true,
            }),
            r.1,
    {
        let steps = self.prepare(true);
        (steps, self.record())
    }
}

/// The volumes shown in map panes: one per pane, resident until the next upload for that pane.
///
/// The pipeline is built the first time a volume is uploaded, not at startup: compiling the
/// raymarch shader costs real time, and most sessions never open the 3D view.
#[derive(Debug)]
pub struct MapVolume3dResources {
    pub pipeline: bool,
    /// Which panes have a volume.
    pub panes: Vec<bool>,
    /// Which panes have a uniform buffer.
    pub uniform_bufs: Vec<bool>,
}

impl MapVolume3dResources {
    /// A pane with a volume has a uniform buffer, and then the pipeline is there.
    pub open spec fn well_formed(self) -> bool {
        &&& self.panes@.len() == self.uniform_bufs@.len()
        &&& forall|i: int|
            0 <= i < self.panes@.len() ==> self.uniform_bufs@[i] == #[trigger] self.panes@[i]
        &&& forall|i: int| 0 <= i < self.panes@.len() && #[trigger] self.panes@[i] ==> self.pipeline
    }

    /// No volume in any of `max_panes` panes.
    pub fn new(max_panes: usize) -> (r: MapVolume3dResources)
        ensures
            r.well_formed(),
            !r.pipeline,
            r.panes@ == Seq::new(max_panes as nat, |i: int| false),
    {
        let mut panes: Vec<bool> = Vec::new();
        let mut uniform_bufs: Vec<bool> = Vec::new();
        let mut i: usize = 0;
        while i < max_panes
            invariant
                i <= max_panes,
                panes@ == Seq::new(i as nat, |i: int| false),
                uniform_bufs@ == Seq::new(i as nat, |i: int| false),
            decreases max_panes - i,
        {
            panes.push(false);
            uniform_bufs.push(false);
            assert(panes@ =~= Seq::new((i + 1) as nat, |i: int| false));
            assert(uniform_bufs@ =~= Seq::new((i + 1) as nat, |i: int| false));
            i = i + 1;
        }
        MapVolume3dResources { pipeline: false, panes, uniform_bufs }
    }

    /// What one frame of a pane does: with a volume, the first upload builds the pipeline and the
    /// pane's first builds its buffer; the uniforms are written where a buffer is.
    pub fn prepare(&mut self, pane: usize, upload: bool) -> (steps: VolumeSteps)
        requires
            old(self).well_formed(),
            pane < old(self).panes@.len(),
        ensures
            final(self).well_formed(),
            steps.build_pipeline == (upload && !old(self).pipeline),
            steps.build_uniform == (upload && !old(self).panes@[pane as int]),
            steps.upload == upload,
            steps.write_uniform == (upload || old(self).panes@[pane as int]),
            final(self).pipeline == (old(self).pipeline || upload),
            final(self).panes@ == old(self).panes@.update(
                pane as int,
                old(self).panes@[pane as int] || upload,
            ),
    {
        let build_pipeline = upload && !self.pipeline;
        let build_uniform = upload && !self.uniform_bufs[pane];
        if upload {
            self.pipeline = true;
            self.uniform_bufs.set(pane, true);
            self.panes.set(pane, true);
        }
        assert(self.panes@ =~= old(self).panes@.update(
            pane as int,
            old(self).panes@[pane as int] || upload,
        ));
        VolumeSteps {
            build_pipeline,
            build_uniform,
            upload,
            write_uniform: self.uniform_bufs[pane],
        }
    }

    /// Whether the pane is drawn: it is once a volume was uploaded for it.
    pub fn record_for_pane(&self, pane: usize) -> (draws: bool)
        requires
            self.well_formed(),
            pane < self.panes@.len(),
        ensures
            draws == self.panes@[pane as int],
            draws ==> self.pipeline,
    {
        self.panes[pane] && self.pipeline
    }
}

/// A voxel keeps its index, and is marked where it holds a value: the first two indices hold none.
pub proof fn voxels_are_marked_where_they_hold(v: u8)
    ensures
        rg8(v).0 == v,
        rg8(v).1 == 255 <==> v != 0 && v != 1,
        rg8(v).1 == 0 <==> v == 0 || v == 1,
{
}

} // verus!
