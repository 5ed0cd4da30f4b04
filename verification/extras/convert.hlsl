// BGRA -> I420 (BT.601 limited range), with scaling to the destination size.
//
// The source texture holds BGRA bytes behind an R8G8B8A8_UNORM view, so that its
// red channel is blue and its blue channel is red. Each thread writes one luma
// sample; the thread at the top left of a 2x2 block writes its chroma too.

cbuffer Dims : register(b0)
{
    uint srcW;
    uint srcH;
    uint dstW;
    uint dstH;
};

Texture2D<float4> src : register(t0);
RWTexture2D<unorm float> planeY : register(u0);
RWTexture2D<unorm float> planeU : register(u1);
RWTexture2D<unorm float> planeV : register(u2);

// The nearest source pixel, as whole numbers from 0 to 255.
int3 pixel(uint2 at)
{
    uint x = min(at.x * srcW / dstW, srcW - 1);
    uint y = min(at.y * srcH / dstH, srcH - 1);
    float4 bgra = src.Load(int3(x, y, 0));
    return int3(round(bgra.zyx * 255.0));
}

[numthreads(8, 8, 1)]
void main(uint3 id : SV_DispatchThreadID)
{
    if (id.x >= dstW || id.y >= dstH)
    {
        return;
    }
    int3 c = pixel(id.xy);
    int y = ((66 * c.r + 129 * c.g + 25 * c.b + 128) >> 8) + 16;
    planeY[id.xy] = y / 255.0;
    if (id.x % 2 == 0 && id.y % 2 == 0)
    {
        int u = ((-38 * c.r - 74 * c.g + 112 * c.b + 128) >> 8) + 128;
        int v = ((112 * c.r - 94 * c.g - 18 * c.b + 128) >> 8) + 128;
        planeU[id.xy / 2] = u / 255.0;
        planeV[id.xy / 2] = v / 255.0;
    }
}
