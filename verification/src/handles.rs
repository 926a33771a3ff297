//! Plain handles and enumerations of the Unity API: pointer wrappers,
//! layer masks, scene handles, and the numeric values of the enums that
//! are passed to managed methods.

use vstd::prelude::*;
use core::marker::PhantomData;

verus! {

/// A raw managed pointer, held as its address, with the pointee type.
pub struct MutPtr<T>(pub usize, pub PhantomData<T>);

impl<T> MutPtr<T> {
    /// Creates a `MutPtr` from an address.
    pub fn new(ptr: usize) -> (r: Self)
        ensures
            r.0 == ptr,
    {
        MutPtr(ptr, PhantomData)
    }

    /// Checks if the underlying pointer is null.
    pub fn is_null(&self) -> (r: bool)
        ensures
            r == (self.0 == 0),
    {
        self.0 == 0
    }

    /// Returns the underlying address.
    pub fn as_ptr(&self) -> (r: usize)
        ensures
            r == self.0,
    {
        self.0
    }
}

/// Humanoid bones, as `Animator.GetBoneTransform` numbers them.
#[derive(Debug, Clone, Copy, PartialEq, Eq)]
pub enum HumanBodyBones {
    Hips,
    LeftUpperLeg,
    RightUpperLeg,
    LeftLowerLeg,
    RightLowerLeg,
    LeftFoot,
    RightFoot,
    Spine,
    Chest,
    UpperChest,
    Neck,
    Head,
    LeftShoulder,
    RightShoulder,
    LeftUpperArm,
    RightUpperArm,
    LeftLowerArm,
    RightLowerArm,
    LeftHand,
    RightHand,
    LeftToes,
    RightToes,
    LeftEye,
    RightEye,
    Jaw,
    LeftThumbProximal,
    LeftThumbIntermediate,
    LeftThumbDistal,
    LeftIndexProximal,
    LeftIndexIntermediate,
    LeftIndexDistal,
    LeftMiddleProximal,
    LeftMiddleIntermediate,
    LeftMiddleDistal,
    LeftRingProximal,
    LeftRingIntermediate,
    LeftRingDistal,
    LeftLittleProximal,
    LeftLittleIntermediate,
    LeftLittleDistal,
    RightThumbProximal,
    RightThumbIntermediate,
    RightThumbDistal,
    RightIndexProximal,
    RightIndexIntermediate,
    RightIndexDistal,
    RightMiddleProximal,
    RightMiddleIntermediate,
    RightMiddleDistal,
    RightRingProximal,
    RightRingIntermediate,
    RightRingDistal,
    RightLittleProximal,
    RightLittleIntermediate,
    RightLittleDistal,
    LastBone,
}

/// The number Unity gives `bone`.
pub open spec fn bone_number(bone: HumanBodyBones) -> i32 {
    match bone {
        HumanBodyBones::Hips => 0,
        HumanBodyBones::LeftUpperLeg => 1,
        HumanBodyBones::RightUpperLeg => 2,
        HumanBodyBones::LeftLowerLeg => 3,
        HumanBodyBones::RightLowerLeg => 4,
        HumanBodyBones::LeftFoot => 5,
        HumanBodyBones::RightFoot => 6,
        HumanBodyBones::Spine => 7,
        HumanBodyBones::Chest => 8,
        HumanBodyBones::UpperChest => 54,
        HumanBodyBones::Neck => 9,
        HumanBodyBones::Head => 10,
        HumanBodyBones::LeftShoulder => 11,
        HumanBodyBones::RightShoulder => 12,
        HumanBodyBones::LeftUpperArm => 13,
        HumanBodyBones::RightUpperArm => 14,
        HumanBodyBones::LeftLowerArm => 15,
        HumanBodyBones::RightLowerArm => 16,
        HumanBodyBones::LeftHand => 17,
        HumanBodyBones::RightHand => 18,
        HumanBodyBones::LeftToes => 19,
        HumanBodyBones::RightToes => 20,
        HumanBodyBones::LeftEye => 21,
        HumanBodyBones::RightEye => 22,
        HumanBodyBones::Jaw => 23,
        HumanBodyBones::LeftThumbProximal => 24,
        HumanBodyBones::LeftThumbIntermediate => 25,
        HumanBodyBones::LeftThumbDistal => 26,
        HumanBodyBones::LeftIndexProximal => 27,
        HumanBodyBones::LeftIndexIntermediate => 28,
        HumanBodyBones::LeftIndexDistal => 29,
        HumanBodyBones::LeftMiddleProximal => 30,
        HumanBodyBones::LeftMiddleIntermediate => 31,
        HumanBodyBones::LeftMiddleDistal => 32,
        HumanBodyBones::LeftRingProximal => 33,
        HumanBodyBones::LeftRingIntermediate => 34,
        HumanBodyBones::LeftRingDistal => 35,
        HumanBodyBones::LeftLittleProximal => 36,
        HumanBodyBones::LeftLittleIntermediate => 37,
        HumanBodyBones::LeftLittleDistal => 38,
        HumanBodyBones::RightThumbProximal => 39,
        HumanBodyBones::RightThumbIntermediate => 40,
        HumanBodyBones::RightThumbDistal => 41,
        HumanBodyBones::RightIndexProximal => 42,
        HumanBodyBones::RightIndexIntermediate => 43,
        HumanBodyBones::RightIndexDistal => 44,
        HumanBodyBones::RightMiddleProximal => 45,
        HumanBodyBones::RightMiddleIntermediate => 46,
        HumanBodyBones::RightMiddleDistal => 47,
        HumanBodyBones::RightRingProximal => 48,
        HumanBodyBones::RightRingIntermediate => 49,
        HumanBodyBones::RightRingDistal => 50,
        HumanBodyBones::RightLittleProximal => 51,
        HumanBodyBones::RightLittleIntermediate => 52,
        HumanBodyBones::RightLittleDistal => 53,
        HumanBodyBones::LastBone => 55,
    }
}

impl HumanBodyBones {
    /// The number Unity gives this bone.
    pub fn value(self) -> (r: i32)
        ensures
            r == bone_number(self),
    {
        match self {
        HumanBodyBones::Hips => 0,
        HumanBodyBones::LeftUpperLeg => 1,
        HumanBodyBones::RightUpperLeg => 2,
        HumanBodyBones::LeftLowerLeg => 3,
        HumanBodyBones::RightLowerLeg => 4,
        HumanBodyBones::LeftFoot => 5,
        HumanBodyBones::RightFoot => 6,
        HumanBodyBones::Spine => 7,
        HumanBodyBones::Chest => 8,
        HumanBodyBones::UpperChest => 54,
        HumanBodyBones::Neck => 9,
        HumanBodyBones::Head => 10,
        HumanBodyBones::LeftShoulder => 11,
        HumanBodyBones::RightShoulder => 12,
        HumanBodyBones::LeftUpperArm => 13,
        HumanBodyBones::RightUpperArm => 14,
        HumanBodyBones::LeftLowerArm => 15,
        HumanBodyBones::RightLowerArm => 16,
        HumanBodyBones::LeftHand => 17,
        HumanBodyBones::RightHand => 18,
        HumanBodyBones::LeftToes => 19,
        HumanBodyBones::RightToes => 20,
        HumanBodyBones::LeftEye => 21,
        HumanBodyBones::RightEye => 22,
        HumanBodyBones::Jaw => 23,
        HumanBodyBones::LeftThumbProximal => 24,
        HumanBodyBones::LeftThumbIntermediate => 25,
        HumanBodyBones::LeftThumbDistal => 26,
        HumanBodyBones::LeftIndexProximal => 27,
        HumanBodyBones::LeftIndexIntermediate => 28,
        HumanBodyBones::LeftIndexDistal => 29,
        HumanBodyBones::LeftMiddleProximal => 30,
        HumanBodyBones::LeftMiddleIntermediate => 31,
        HumanBodyBones::LeftMiddleDistal => 32,
        HumanBodyBones::LeftRingProximal => 33,
        HumanBodyBones::LeftRingIntermediate => 34,
        HumanBodyBones::LeftRingDistal => 35,
        HumanBodyBones::LeftLittleProximal => 36,
        HumanBodyBones::LeftLittleIntermediate => 37,
        HumanBodyBones::LeftLittleDistal => 38,
        HumanBodyBones::RightThumbProximal => 39,
        HumanBodyBones::RightThumbIntermediate => 40,
        HumanBodyBones::RightThumbDistal => 41,
        HumanBodyBones::RightIndexProximal => 42,
        HumanBodyBones::RightIndexIntermediate => 43,
        HumanBodyBones::RightIndexDistal => 44,
        HumanBodyBones::RightMiddleProximal => 45,
        HumanBodyBones::RightMiddleIntermediate => 46,
        HumanBodyBones::RightMiddleDistal => 47,
        HumanBodyBones::RightRingProximal => 48,
        HumanBodyBones::RightRingIntermediate => 49,
        HumanBodyBones::RightRingDistal => 50,
        HumanBodyBones::RightLittleProximal => 51,
        HumanBodyBones::RightLittleIntermediate => 52,
        HumanBodyBones::RightLittleDistal => 53,
        HumanBodyBones::LastBone => 55,
        }
    }
}

/// How `Rigidbody.AddForce` applies a force.
#[derive(Debug, Clone, Copy, PartialEq, Eq)]
pub enum ForceMode {
    /// Applies a continuous force to the rigidbody, using its mass
    Force,
    /// Applies a continuous acceleration to the rigidbody, ignoring its mass
    Acceleration,
    /// Applies an instant force impulse to the rigidbody, using its mass
    Impulse,
    /// Applies an instant velocity change to the rigidbody, ignoring its mass
    VelocityChange,
}

impl ForceMode {
    /// The number Unity gives this mode.
    pub fn value(self) -> (r: i32)
        ensures
            r == match self {
                ForceMode::Force => 0i32,
                ForceMode::Acceleration => 5i32,
                ForceMode::Impulse => 1i32,
                ForceMode::VelocityChange => 2i32,
            },
    {
        match self {
            ForceMode::Force => 0,
            ForceMode::Acceleration => 5,
            ForceMode::Impulse => 1,
            ForceMode::VelocityChange => 2,
        }
    }
}

/// Which eye a camera transform is computed for.
#[derive(Debug, Clone, Copy, PartialEq, Eq)]
pub enum CameraEye {
    Left,
    Right,
    Mono,
}

impl CameraEye {
    /// The number Unity gives this eye.
    pub fn value(self) -> (r: i32)
        ensures
            r == match self {
                CameraEye::Left => 0i32,
                CameraEye::Right => 1i32,
                CameraEye::Mono => 2i32,
            },
    {
        match self {
            CameraEye::Left => 0,
            CameraEye::Right => 1,
            CameraEye::Mono => 2,
        }
    }
}

/// A bit mask of physics layers.
#[derive(Debug, Clone, Copy, PartialEq, Eq, Structural)]
pub struct LayerMask {
    pub value: i32,
}

impl From<i32> for LayerMask {
    fn from(value: i32) -> (r: Self) {
        LayerMask { value }
    }
}

impl vstd::std_specs::convert::FromSpecImpl<i32> for LayerMask {
    open spec fn obeys_from_spec() -> bool {
        true
    }

    open spec fn from_spec(value: i32) -> Self {
        LayerMask { value }
    }
}

impl From<LayerMask> for i32 {
    fn from(mask: LayerMask) -> (r: Self) {
        mask.value
    }
}

impl vstd::std_specs::convert::FromSpecImpl<LayerMask> for i32 {
    open spec fn obeys_from_spec() -> bool {
        true
    }

    open spec fn from_spec(mask: LayerMask) -> Self {
        mask.value
    }
}

/// A scene, identified by its handle.
#[derive(Debug, Clone, Copy, PartialEq, Eq, Structural)]
pub struct Scene {
    /// Handle to the underlying scene
    pub handle: i32,
}

/// Converting an `i32` to a `LayerMask` and back gives the same `i32`.
pub proof fn law_layer_mask_round_trip(v: i32)
    ensures
        <i32 as vstd::std_specs::convert::FromSpec<LayerMask>>::from_spec(
            <LayerMask as vstd::std_specs::convert::FromSpec<i32>>::from_spec(v),
        ) == v,
{
}

} // verus!
