# virtualcam

Virtual-camera output for Windows (Media Foundation VCam, OBS Virtual Camera,
Unity Video Capture) and Linux (v4l2loopback), written in Verus.

`src/` is the verified library: pixel formats and FourCC codes, every frame
conversion, the frame a camera hands its backend, and the decisions of each
transport — the Media Foundation shared-frame protocol (names, access list,
writer lease, seqlock header), the OBS three-slot queue layout, the V4L2 ioctl
codes and negotiation checks, device selection, and the green test frame of
the end-to-end probe. Each public function states its result in its
`ensures`; the laws that relate functions are public proof functions, such as
the I420/NV12 round trip, the vertical flip undoing itself, the seqlock
refusing every read that overlaps a write, frame rates reduced to lowest
terms, and device paths reading back as their numbers.

`app/` holds what talks to the operating system: device nodes, ioctls and
mmap, Win32 shared memory and registry, the error messages, frame pacing
(floating point), and the `Camera` type that owns a backend.

`tests/` runs the library on concrete frames and headers.
